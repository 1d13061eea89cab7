use fiducia_mcp_server::repo_map::REPO_MAP;

/// Renamed repositories stand under their current names, and every mention of an
/// older name is marked as such where it stands.
#[test]
fn repo_map_uses_renamed_names_and_marks_stale_ones() {
    for current in ["fiducia-customer.rs", "fiducia-marketing.web"] {
        assert!(
            REPO_MAP.contains(current),
            "repo map must name the renamed repo {current:?}"
        );
    }

    let stale = [
        "fiducia-customer-ui.web",
        "fiducia-backend.rs",
        "fiducia-ui.web",
    ];
    let markers = ["renamed", "archived", "deprecated", "legacy", "still named"];
    let lines: Vec<&str> = REPO_MAP.lines().collect();
    for name in stale {
        for (i, line) in lines.iter().enumerate() {
            if !line.contains(name) {
                continue;
            }
            let window = lines[i.saturating_sub(1)..(i + 2).min(lines.len())]
                .join("\n")
                .to_ascii_lowercase();
            assert!(
                markers.iter().any(|m| window.contains(m)),
                "stale repo name {name:?} appears without a rename/archive \
                 marker nearby:\n{line}"
            );
        }
    }
}
