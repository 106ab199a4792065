use snapshot_browser::entry::{Entry, EntryKind, Tree, TreeId};
use snapshot_browser::model::{HELP_TEXT, INFO_TEXT};
use snapshot_browser::screen::{
    CurrentScreen, Event, FileView, Key, Layer, Mode, PopUp, PromptResult, Reply, Request,
    RestoreTask, SnapshotResult, TextInputResult,
};
use snapshot_browser::snapshot::{absolute_flags, any_absolute, any_set, Snapshot, SnapshotInfo};
use snapshot_browser::summary::{Summary, SummaryMap};
use snapshot_browser::walk::Walk;

fn t(n: u128) -> TreeId {
    TreeId { hi: 0, lo: n }
}

fn info(paths: &[&str]) -> SnapshotInfo {
    SnapshotInfo {
        id: "abcd1234".to_string(),
        tree: t(1),
        paths: paths.iter().map(|p| p.to_string()).collect(),
    }
}

fn root_tree() -> Tree {
    Tree {
        nodes: vec![
            Entry::file("A".to_string(), 10),
            Entry::file("B".to_string(), 20),
            Entry::dir("C".to_string(), t(2)),
        ],
    }
}

fn child_tree() -> Tree {
    Tree { nodes: vec![Entry::file("D".to_string(), 5), Entry::dir("E".to_string(), t(3))] }
}

fn browser() -> Snapshot {
    Snapshot::new(info(&[]), root_tree(), SummaryMap::new(), false)
}

fn press(c: char) -> Event {
    Event::Press(Key::Char(c))
}

fn in_child() -> Snapshot {
    let mut app = browser();
    app.select(Some(2));
    assert_eq!(app.input(Event::Press(Key::Enter), Reply::Tree(child_tree())), SnapshotResult::Stay);
    app
}

#[test]
fn new_browser_shows_the_root() {
    let app = browser();
    assert_eq!(app.current_screen(), &CurrentScreen::Snapshot);
    assert!(!app.numeric());
    assert_eq!(app.depth(), 0);
    assert!(app.path().is_empty());
    assert_eq!(app.tree(), &root_tree());
    assert_eq!(app.tree_id(), t(1));
    assert_eq!(app.table().selected, Some(0));
    assert_eq!(app.table().rows.len(), 3);
    assert_eq!(app.table().title, "abcd1234:");
    assert_eq!(app.table().footer, "total: 3, files: 2, dirs: 1, size: 30 -  Id names");
    assert_eq!(app.selected_node(), Some(&Entry::file("A".to_string(), 10)));
}

#[test]
fn new_browser_of_an_empty_root_selects_nothing() {
    let app = Snapshot::new(info(&[]), Tree::new(), SummaryMap::new(), false);
    assert_eq!(app.table().selected, None);
    assert_eq!(app.selected_node(), None);
    assert_eq!(app.request(&Event::Press(Key::Enter)), Request::Nothing);
    assert_eq!(app.request(&press('v')), Request::Nothing);
}

#[test]
fn enter_asks_for_the_listing_of_a_selected_directory_only() {
    let mut app = browser();
    assert_eq!(app.request(&Event::Press(Key::Enter)), Request::Nothing);
    assert_eq!(app.request(&Event::Press(Key::Right)), Request::Nothing);
    app.select(Some(2));
    assert_eq!(app.request(&Event::Press(Key::Enter)), Request::Tree(t(2)));
    assert_eq!(app.request(&Event::Press(Key::Right)), Request::Tree(t(2)));
}

#[test]
fn enter_on_a_file_changes_nothing() {
    let mut app = browser();
    app.select(Some(1));
    app.enter(child_tree());
    assert_eq!(app.depth(), 0);
    assert_eq!(app.tree(), &root_tree());
    assert_eq!(app.table().selected, Some(1));
    assert_eq!(app.input(Event::Press(Key::Enter), Reply::Tree(child_tree())), SnapshotResult::Stay);
    assert_eq!(app.tree(), &root_tree());
    assert_eq!(app.table().selected, Some(1));
}

#[test]
fn enter_without_a_listing_changes_nothing() {
    let mut app = browser();
    app.select(Some(2));
    assert_eq!(app.input(Event::Press(Key::Enter), Reply::Nothing), SnapshotResult::Stay);
    assert_eq!(app.depth(), 0);
    assert_eq!(app.tree_id(), t(1));
}

#[test]
fn enter_descends_into_the_selected_directory() {
    let app = in_child();
    assert_eq!(app.depth(), 1);
    assert_eq!(app.path(), &vec!["C".to_string()]);
    assert_eq!(app.tree(), &child_tree());
    assert_eq!(app.tree_id(), t(2));
    assert_eq!(app.table().selected, Some(0));
    assert_eq!(app.table().title, "abcd1234:C");
    assert_eq!(app.table().footer, "total: 2, files: 1, dirs: 1, size: 5 -  Id names");
}

#[test]
fn enter_then_goback_restores_the_state() {
    let mut app = browser();
    app.select(Some(2));
    let table_before = format!("{:?}", app.table());
    app.enter(child_tree());
    assert_eq!(app.depth(), 1);
    assert!(!app.goback());
    assert_eq!(app.tree(), &root_tree());
    assert_eq!(app.tree_id(), t(1));
    assert!(app.path().is_empty());
    assert_eq!(app.table().selected, Some(2));
    assert_eq!(app.depth(), 0);
    assert_eq!(format!("{:?}", app.table()), table_before);
}

#[test]
fn depth_is_the_length_of_the_path() {
    let mut app = browser();
    assert_eq!(app.depth(), app.path().len());
    app.select(Some(2));
    app.enter(child_tree());
    assert_eq!((app.depth(), app.path().len()), (1, 1));
    app.select(Some(1));
    app.enter(Tree::new());
    assert_eq!((app.depth(), app.path().len()), (2, 2));
    assert_eq!(app.path(), &vec!["C".to_string(), "E".to_string()]);
    assert_eq!(app.table().title, "abcd1234:C/E");
    assert_eq!(app.table().selected, None);
    assert_eq!(app.input(Event::Press(Key::Left), Reply::Nothing), SnapshotResult::Stay);
    assert_eq!((app.depth(), app.path().len()), (1, 1));
    assert_eq!(app.table().selected, Some(1));
    assert_eq!(app.input(Event::Press(Key::Backspace), Reply::Nothing), SnapshotResult::Stay);
    assert_eq!((app.depth(), app.path().len()), (0, 0));
    assert_eq!(app.table().selected, Some(2));
}

#[test]
fn goback_at_the_root_says_to_leave() {
    let mut app = browser();
    assert!(app.goback());
    assert_eq!(app.tree(), &root_tree());
    assert_eq!(app.table().selected, Some(0));
}

#[test]
fn backspace_at_the_root_returns_the_cache() {
    let mut cache = SummaryMap::new();
    cache.record(t(2), Summary { files: 1, dirs: 0, size: 5 });
    cache.record(t(7), Summary { files: 4, dirs: 4, size: 4 });
    let mut app = Snapshot::new(info(&[]), root_tree(), cache, false);
    assert_eq!(app.table().rows[2].size, 5);
    match app.input(Event::Press(Key::Backspace), Reply::Nothing) {
        SnapshotResult::Return(map) => {
            assert_eq!(map.get(&t(2)), Some(Summary { files: 1, dirs: 0, size: 5 }));
            assert_eq!(map.get(&t(7)), Some(Summary { files: 4, dirs: 4, size: 4 }));
            assert_eq!(map.get(&t(1)), None);
        }
        other => panic!("{:?}", other),
    }
    assert_eq!(app.summary_map().get(&t(2)), None);
    let mut left = browser();
    assert_eq!(
        left.input(Event::Press(Key::Left), Reply::Nothing),
        SnapshotResult::Return(SummaryMap::new())
    );
}

#[test]
fn toggle_numeric_twice_shows_the_first_rows() {
    let mut e = Entry::file("f".to_string(), 1);
    e.user = Some("alice".to_string());
    e.uid = Some(1000);
    let mut app = Snapshot::new(info(&[]), Tree { nodes: vec![e] }, SummaryMap::new(), false);
    let before = format!("{:?}", app.table());
    assert_eq!(app.table().rows[0].user, "alice");
    assert_eq!(app.input(press('n'), Reply::Nothing), SnapshotResult::Stay);
    assert!(app.numeric());
    assert_eq!(app.table().rows[0].user, "1000");
    assert_eq!(app.table().footer, "total: 1, files: 1, dirs: 0, size: 1 - numeric IDs");
    app.toggle_numeric();
    assert!(!app.numeric());
    assert_eq!(format!("{:?}", app.table()), before);
    assert_eq!(app.request(&press('n')), Request::Nothing);
}

#[test]
fn computed_sizes_show_in_the_rows() {
    let mut app = browser();
    assert_eq!(app.request(&press('s')), Request::Sizes(t(1)));
    let mut walk = Walk::start(app.summary_map(), t(1));
    assert_eq!(walk.wanted(), Some(t(1)));
    walk.supply(app.summary_map(), root_tree());
    assert_eq!(walk.wanted(), Some(t(2)));
    walk.supply(app.summary_map(), Tree { nodes: vec![Entry::file("D".to_string(), 5)] });
    assert_eq!(walk.wanted(), None);
    assert_eq!(app.input(press('s'), Reply::Sizes(walk.finish())), SnapshotResult::Stay);
    assert_eq!(app.summary_map().get(&t(1)), Some(Summary { files: 3, dirs: 1, size: 35 }));
    assert_eq!(app.summary_map().get(&t(2)), Some(Summary { files: 1, dirs: 0, size: 5 }));
    assert_eq!(app.table().rows[2].name, "C");
    assert_eq!(app.table().rows[2].size, 5);
    assert_eq!(app.table().footer, "total: 3, files: 3, dirs: 0, size: 35 -  Id names");
    assert_eq!(app.table().selected, Some(0));
}

#[test]
fn computing_sizes_again_changes_no_total() {
    let mut app = browser();
    app.compute_sizes(&vec![(t(2), Summary { files: 1, dirs: 0, size: 5 })]);
    app.compute_sizes(&vec![(t(2), Summary { files: 9, dirs: 9, size: 9 })]);
    assert_eq!(app.summary_map().get(&t(2)), Some(Summary { files: 1, dirs: 0, size: 5 }));
    assert_eq!(app.input(press('s'), Reply::Nothing), SnapshotResult::Stay);
    assert_eq!(app.summary_map().get(&t(2)), Some(Summary { files: 1, dirs: 0, size: 5 }));
    let walk = Walk::start(app.summary_map(), t(2));
    assert_eq!(walk.wanted(), None);
}

#[test]
fn cache_stays_through_directory_changes() {
    let mut app = browser();
    app.compute_sizes(&vec![(t(2), Summary { files: 1, dirs: 0, size: 5 })]);
    app.select(Some(2));
    app.enter(child_tree());
    assert_eq!(app.summary_map().get(&t(2)), Some(Summary { files: 1, dirs: 0, size: 5 }));
    app.goback();
    assert_eq!(app.summary_map().get(&t(2)), Some(Summary { files: 1, dirs: 0, size: 5 }));
    assert_eq!(app.table().rows[2].size, 5);
}

#[test]
fn other_keys_go_to_the_table() {
    let mut app = browser();
    assert_eq!(app.request(&Event::Press(Key::Other)), Request::Move);
    assert_eq!(app.request(&press('j')), Request::Move);
    assert_eq!(app.input(Event::Press(Key::Other), Reply::Selection(Some(1))), SnapshotResult::Stay);
    assert_eq!(app.table().selected, Some(1));
    assert_eq!(app.input(press('j'), Reply::Selection(Some(2))), SnapshotResult::Stay);
    assert_eq!(app.table().selected, Some(2));
    assert_eq!(app.input(press('j'), Reply::Selection(Some(3))), SnapshotResult::Stay);
    assert_eq!(app.table().selected, Some(2));
    assert_eq!(app.input(press('h'), Reply::Selection(None)), SnapshotResult::Stay);
    assert_eq!(app.table().selected, None);
    assert_eq!(app.selected_node(), None);
    assert_eq!(app.input(press('j'), Reply::Nothing), SnapshotResult::Stay);
    assert_eq!(app.table().selected, None);
}

#[test]
fn events_that_are_no_key_press_do_nothing_while_browsing() {
    let mut app = browser();
    assert_eq!(app.request(&Event::Other), Request::Nothing);
    assert_eq!(app.input(Event::Other, Reply::Selection(Some(2))), SnapshotResult::Stay);
    assert_eq!(app.table().selected, Some(0));
    assert_eq!(app.current_screen(), &CurrentScreen::Snapshot);
}

#[test]
fn quit_key_then_accept_exits() {
    for key in [Key::Esc, Key::Char('q')] {
        let mut app = browser();
        assert_eq!(app.request(&Event::Press(key)), Request::Nothing);
        assert_eq!(app.input(Event::Press(key), Reply::Nothing), SnapshotResult::Stay);
        assert_eq!(
            app.current_screen(),
            &CurrentScreen::PromptExit(PopUp {
                title: "exit rustic".to_string(),
                text: "do you want to exit? (y/n)".to_string(),
            })
        );
        assert_eq!(app.request(&press('y')), Request::Prompt);
        assert_eq!(
            app.input(press('y'), Reply::Prompt(PromptResult::Accept)),
            SnapshotResult::Exit
        );
    }
}

#[test]
fn quit_key_then_cancel_resumes_with_the_state_unchanged() {
    let mut app = in_child();
    app.compute_sizes(&vec![(t(3), Summary { files: 2, dirs: 0, size: 8 })]);
    app.select(Some(1));
    let before = format!("{:?}", app);
    app.input(press('q'), Reply::Nothing);
    assert_eq!(app.current_screen().mode(), Mode::PromptExit);
    assert_eq!(app.input(press('x'), Reply::Prompt(PromptResult::Pending)), SnapshotResult::Stay);
    assert_eq!(app.current_screen().mode(), Mode::PromptExit);
    assert_eq!(app.input(press('n'), Reply::Prompt(PromptResult::Cancel)), SnapshotResult::Stay);
    assert_eq!(app.current_screen(), &CurrentScreen::Snapshot);
    assert_eq!(format!("{:?}", app), before);
    assert_eq!(app.table().selected, Some(1));
    assert_eq!(app.path(), &vec!["C".to_string()]);
    assert_eq!(app.summary_map().get(&t(3)), Some(Summary { files: 2, dirs: 0, size: 8 }));
}

#[test]
fn help_opens_and_closes() {
    for key in [Key::Char('q'), Key::Char(' '), Key::Char('?'), Key::Esc, Key::Enter] {
        let mut app = browser();
        assert_eq!(app.input(press('?'), Reply::Nothing), SnapshotResult::Stay);
        assert_eq!(
            app.current_screen(),
            &CurrentScreen::ShowHelp(PopUp { title: "help".to_string(), text: HELP_TEXT.to_string() })
        );
        assert_eq!(app.request(&Event::Press(key)), Request::Nothing);
        assert_eq!(app.input(Event::Press(Key::Char('n')), Reply::Nothing), SnapshotResult::Stay);
        assert_eq!(app.input(Event::Press(Key::Backspace), Reply::Nothing), SnapshotResult::Stay);
        assert_eq!(app.input(Event::Other, Reply::Nothing), SnapshotResult::Stay);
        assert_eq!(app.current_screen().mode(), Mode::ShowHelp);
        assert!(!app.numeric());
        assert_eq!(app.input(Event::Press(key), Reply::Nothing), SnapshotResult::Stay);
        assert_eq!(app.current_screen(), &CurrentScreen::Snapshot);
    }
    assert!(HELP_TEXT.contains("v : view file contents"));
    assert!(INFO_TEXT.starts_with("(Esc) quit"));
}

#[test]
fn view_reads_no_more_than_the_limit() {
    let sizes = [(0u64, 0usize), (999_999, 999_999), (1_000_000, 1_000_000), (1_000_001, 1_000_000), (u64::MAX, 1_000_000)];
    for (size, length) in sizes {
        let tree = Tree { nodes: vec![Entry::file("big".to_string(), size)] };
        let app = Snapshot::new(info(&[]), tree, SummaryMap::new(), false);
        assert_eq!(app.request(&press('v')), Request::File { index: 0, length });
    }
}

#[test]
fn view_opens_the_viewer_on_text() {
    let mut app = in_child();
    assert_eq!(app.request(&press('v')), Request::File { index: 0, length: 5 });
    let text = "h\u{e9}llo\nw\u{f6}rld\n";
    assert_eq!(app.input(press('v'), Reply::File(text.as_bytes().to_vec())), SnapshotResult::Stay);
    assert_eq!(
        app.current_screen(),
        &CurrentScreen::ShowFile(FileView {
            title: "abcd1234:/C/D".to_string(),
            content: text.to_string(),
            rows: 3,
        })
    );
    assert_eq!(app.request(&press('x')), Request::Viewer);
    assert_eq!(app.input(press('x'), Reply::Viewer(TextInputResult::Pending)), SnapshotResult::Stay);
    assert_eq!(app.current_screen().mode(), Mode::ShowFile);
    assert_eq!(app.input(press('x'), Reply::Viewer(TextInputResult::Cancel)), SnapshotResult::Stay);
    assert_eq!(app.current_screen(), &CurrentScreen::Snapshot);
    app.view_file(b"one".to_vec());
    assert_eq!(app.input(Event::Other, Reply::Viewer(TextInputResult::Input)), SnapshotResult::Stay);
    assert_eq!(app.current_screen(), &CurrentScreen::Snapshot);
}

#[test]
fn viewer_takes_forty_rows_at_most() {
    let mut app = browser();
    app.view_file(vec![b'\n'; 38]);
    assert_eq!(app.current_screen(), &CurrentScreen::ShowFile(FileView {
        title: "abcd1234:/A".to_string(),
        content: "\n".repeat(38),
        rows: 39,
    }));
    let mut app = browser();
    app.view_file(vec![b'\n'; 39]);
    match app.current_screen() {
        CurrentScreen::ShowFile(file) => assert_eq!(file.rows, 40),
        other => panic!("{:?}", other),
    }
    let mut app = browser();
    app.view_file(vec![b'\n'; 5000]);
    match app.current_screen() {
        CurrentScreen::ShowFile(file) => assert_eq!(file.rows, 40),
        other => panic!("{:?}", other),
    }
    let mut app = browser();
    app.view_file(Vec::new());
    match app.current_screen() {
        CurrentScreen::ShowFile(file) => assert_eq!((file.rows, file.content.as_str()), (1, "")),
        other => panic!("{:?}", other),
    }
}

#[test]
fn view_never_opens_on_bytes_that_are_no_text() {
    let mut app = browser();
    assert_eq!(app.input(press('v'), Reply::File(vec![0xff, 0xfe, 0x00])), SnapshotResult::Stay);
    assert_eq!(app.current_screen(), &CurrentScreen::Snapshot);
    app.view_file(vec![b'a', 0xc3]);
    assert_eq!(app.current_screen(), &CurrentScreen::Snapshot);
    app.view_file(vec![0xed, 0xa0, 0x80]);
    assert_eq!(app.current_screen(), &CurrentScreen::Snapshot);
}

#[test]
fn view_is_not_offered_on_a_directory_or_a_cold_repository() {
    let mut app = browser();
    app.select(Some(2));
    assert_eq!(app.request(&press('v')), Request::Nothing);
    assert_eq!(app.input(press('v'), Reply::File(b"text".to_vec())), SnapshotResult::Stay);
    assert_eq!(app.current_screen(), &CurrentScreen::Snapshot);
    assert_eq!(app.input(press('v'), Reply::Nothing), SnapshotResult::Stay);
    assert_eq!(app.current_screen(), &CurrentScreen::Snapshot);
    let mut cold = Snapshot::new(info(&[]), root_tree(), SummaryMap::new(), true);
    assert_eq!(cold.request(&press('v')), Request::Nothing);
    assert_eq!(cold.input(press('v'), Reply::File(b"text".to_vec())), SnapshotResult::Stay);
    assert_eq!(cold.current_screen(), &CurrentScreen::Snapshot);
}

#[test]
fn restore_begins_with_a_relative_target() {
    let mut app = Snapshot::new(info(&["data", "more/data"]), root_tree(), SummaryMap::new(), false);
    app.select(Some(2));
    app.enter(child_tree());
    assert_eq!(app.request(&press('r')), Request::Nothing);
    assert_eq!(app.input(press('r'), Reply::Nothing), SnapshotResult::Stay);
    assert_eq!(
        app.current_screen(),
        &CurrentScreen::Restore(RestoreTask {
            entry: Entry::file("D".to_string(), 5),
            label: "abcd1234:/C/D".to_string(),
            target: "C/D".to_string(),
        })
    );
}

#[test]
fn restore_begins_with_an_absolute_target() {
    let mut app = Snapshot::new(info(&["data", "/home/alice"]), root_tree(), SummaryMap::new(), false);
    app.select(Some(2));
    app.restore();
    assert_eq!(
        app.current_screen(),
        &CurrentScreen::Restore(RestoreTask {
            entry: Entry::dir("C".to_string(), t(2)),
            label: "abcd1234:/C".to_string(),
            target: "/C".to_string(),
        })
    );
    assert!(any_absolute(&vec!["/".to_string()]));
    assert!(!any_absolute(&vec!["relative".to_string(), "./x".to_string()]));
    assert!(!any_absolute(&vec![]));
}

#[test]
fn assembled_browser_takes_the_flag_as_given() {
    let mut app = Snapshot::assemble(info(&[]), root_tree(), SummaryMap::new(), false, true);
    app.restore();
    match app.current_screen() {
        CurrentScreen::Restore(task) => assert_eq!(task.target, "/A"),
        other => panic!("{:?}", other),
    }
}

#[test]
fn restore_without_a_selection_changes_nothing() {
    let mut app = Snapshot::new(info(&[]), Tree::new(), SummaryMap::new(), false);
    assert_eq!(app.input(press('r'), Reply::Nothing), SnapshotResult::Stay);
    assert_eq!(app.current_screen(), &CurrentScreen::Snapshot);
}

#[test]
fn restore_dialogue_keeps_the_screen_until_it_is_done() {
    let mut app = browser();
    app.restore();
    assert_eq!(app.request(&press('n')), Request::Restore);
    assert_eq!(app.input(press('n'), Reply::Restore(false)), SnapshotResult::Stay);
    assert_eq!(app.current_screen().mode(), Mode::Restore);
    assert!(!app.numeric());
    assert_eq!(app.input(press('q'), Reply::Nothing), SnapshotResult::Stay);
    assert_eq!(app.current_screen().mode(), Mode::Restore);
    assert_eq!(app.input(Event::Other, Reply::Restore(true)), SnapshotResult::Stay);
    assert_eq!(app.current_screen(), &CurrentScreen::Snapshot);
}

#[test]
fn one_mode_is_active_and_takes_the_event_alone() {
    let mut app = browser();
    app.input(press('?'), Reply::Nothing);
    let before = (app.table().selected, app.depth(), app.numeric());
    app.input(Event::Press(Key::Enter), Reply::Prompt(PromptResult::Accept));
    assert_eq!(app.current_screen().mode(), Mode::Snapshot);
    app.input(press('q'), Reply::Nothing);
    assert_eq!(app.input(press('n'), Reply::Viewer(TextInputResult::Cancel)), SnapshotResult::Stay);
    assert_eq!(app.input(press('n'), Reply::Restore(true)), SnapshotResult::Stay);
    assert_eq!(app.input(Event::Press(Key::Enter), Reply::Tree(child_tree())), SnapshotResult::Stay);
    assert_eq!(app.current_screen().mode(), Mode::PromptExit);
    assert_eq!((app.table().selected, app.depth(), app.numeric()), before);
}

#[test]
fn draw_lists_the_layers_from_the_bottom_up() {
    let mut app = browser();
    assert_eq!(app.draw(), vec![Layer::Table, Layer::Hints]);
    app.input(press('?'), Reply::Nothing);
    assert_eq!(app.draw(), vec![Layer::Table, Layer::Hints, Layer::Help]);
    app.input(Event::Press(Key::Esc), Reply::Nothing);
    app.input(Event::Press(Key::Esc), Reply::Nothing);
    assert_eq!(app.draw(), vec![Layer::Table, Layer::Hints, Layer::Prompt]);
    app.input(Event::Other, Reply::Prompt(PromptResult::Cancel));
    app.view_file(b"text".to_vec());
    assert_eq!(app.draw(), vec![Layer::Table, Layer::Hints, Layer::File]);
    app.input(Event::Other, Reply::Viewer(TextInputResult::Cancel));
    app.restore();
    assert_eq!(app.draw(), vec![Layer::Restore]);
}

#[test]
fn update_table_follows_the_state() {
    let mut app = browser();
    let before = format!("{:?}", app.table());
    app.update_table();
    assert_eq!(format!("{:?}", app.table()), before);
    app.select(None);
    app.update_table();
    assert_eq!(app.table().selected, Some(0));
    let row = app.ls_row(&Entry::file("x".to_string(), 3));
    assert_eq!((row.name.as_str(), row.size, row.user.as_str()), ("x", 3, "?"));
    let mut kind = Entry::file("k".to_string(), 1);
    kind.kind = EntryKind::Other;
    assert_eq!(app.ls_row(&kind).size, 1);
}

#[test]
fn any_set_finds_a_set_flag() {
    assert!(!any_set(&vec![]));
    assert!(!any_set(&vec![false, false]));
    assert!(any_set(&vec![false, true, false]));
    assert!(any_set(&vec![true]));
    assert_eq!(
        absolute_flags(&vec!["/etc".to_string(), "etc".to_string(), "".to_string()]),
        vec![true, false, false]
    );
}
