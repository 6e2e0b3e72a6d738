use rvim::commands::{all_commands, description, filter_commands};
use rvim::render::{chunk_rows, palette_columns, palette_description, palette_grid, palette_group_grid, palette_group_label, palette_suggestions};

#[test]
fn all_commands_are_sorted_and_unique() {
    let all = all_commands();
    assert_eq!(all.len(), 29);
    for i in 1..all.len() {
        assert!(all[i - 1] < all[i], "{} !< {}", all[i - 1], all[i]);
    }
    assert_eq!(all[0], "bk");
    assert_eq!(all[28], "x");
}

#[test]
fn every_command_has_a_description() {
    for c in all_commands() {
        assert!(!description(c).is_empty(), "{}", c);
    }
}

#[test]
fn descriptions_of_commands() {
    assert_eq!(description("fw"), "Save file");
    assert_eq!(description("wq"), "Save+close (alias: fx)");
    assert_eq!(description("x"), "Save+close (alias: fx)");
    assert_eq!(description("gt"), "Next tab (alias: tnext)");
    assert_eq!(description("set cursorline"), "Highlight cursor line");
    assert_eq!(description("nope"), "");
    assert_eq!(description(""), "");
}

#[test]
fn filter_by_prefix() {
    assert_eq!(filter_commands("t"), vec!["tabclose", "tabnew", "tabnext", "tabprev", "tclose", "tnew", "tnext", "tprev"]);
    assert_eq!(filter_commands("b"), vec!["bk", "bl", "bnew", "buffer"]);
    assert_eq!(filter_commands("q"), vec!["q", "q!"]);
    assert_eq!(filter_commands("set n"), vec!["set nocursorline"]);
    assert_eq!(filter_commands("zz"), Vec::<&str>::new());
}

#[test]
fn empty_filter_keeps_everything() {
    assert_eq!(filter_commands(""), all_commands());
}

#[test]
fn palette_shows_at_most_ten() {
    let s = palette_suggestions("");
    assert_eq!(s.len(), 10);
    assert_eq!(s[..], all_commands()[..10]);
    assert_eq!(palette_suggestions("f"), vec!["fq", "fq!", "fw", "fx"]);
    assert_eq!(palette_suggestions("t"), vec!["tabclose", "tabnew", "tabnext", "tabprev", "tclose", "tnew", "tnext", "tprev"]);
}

#[test]
fn palette_group_labels() {
    assert_eq!(palette_group_label("f"), Some("── File ──"));
    assert_eq!(palette_group_label("bn"), Some("── Buffer ──"));
    assert_eq!(palette_group_label("tab"), Some("── Tab ──"));
    assert_eq!(palette_group_label("set"), Some("── Settings ──"));
    assert_eq!(palette_group_label("set no"), Some("── Settings ──"));
    assert_eq!(palette_group_label("b 1"), None);
    assert_eq!(palette_group_label("q"), None);
    assert_eq!(palette_group_label("help"), None);
}

#[test]
fn palette_layout() {
    assert_eq!(palette_columns(0), 1);
    assert_eq!(palette_columns(67), 1);
    assert_eq!(palette_columns(68), 2);
    assert_eq!(palette_columns(80), 2);
    assert_eq!(palette_columns(120), 3);
    assert_eq!(palette_description("fw"), "Save file");
    assert_eq!(palette_description("tabclose"), "Close tab (alias");
    assert_eq!(palette_description("set nocursorline"), "Disable cursor h");
    assert_eq!(palette_description("unknown"), "");
}

#[test]
fn palette_grids() {
    assert_eq!(
        palette_grid("t", 40),
        vec![vec!["tabclose"], vec!["tabnew"], vec!["tabnext"], vec!["tabprev"], vec!["tclose"], vec!["tnew"], vec!["tnext"], vec!["tprev"]]
    );
    assert_eq!(
        palette_grid("t", 80),
        vec![vec!["tabclose", "tabnew"], vec!["tabnext", "tabprev"], vec!["tclose", "tnew"], vec!["tnext", "tprev"]]
    );
    assert_eq!(palette_grid("f", 120), vec![vec!["fq", "fq!", "fw"], vec!["fx"]]);
    assert!(palette_grid("zz", 80).is_empty());
    assert_eq!(palette_grid("", 20).len(), 10);
    let groups = palette_group_grid(80);
    assert_eq!(groups.len(), 3);
    assert_eq!(groups[0], vec![("f…", "File commands"), ("b…", "Buffer commands")]);
    assert_eq!(groups[2], vec![("help", "Show help")]);
    assert_eq!(chunk_rows(&vec![1, 2, 3, 4], 3), vec![vec![1, 2, 3], vec![4]]);
}
