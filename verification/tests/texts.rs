use snapshot_browser::entry::{Entry, Timestamp, TreeId};
use snapshot_browser::summary::{Summary, SummaryMap};
use snapshot_browser::entry::Tree;
use snapshot_browser::mode::{mode_str, FileType};
use snapshot_browser::table::{footer, ls_row, render, title, Row};
use snapshot_browser::text::{count_lines, decimal, join_path, padded};

fn names(list: &[&str]) -> Vec<String> {
    list.iter().map(|s| s.to_string()).collect()
}

fn full_entry() -> Entry {
    let mut e = Entry::file("notes.txt".to_string(), 1234);
    e.mode = "-rw-r--r--".to_string();
    e.user = Some("alice".to_string());
    e.group = Some("staff".to_string());
    e.uid = Some(1000);
    e.gid = Some(50);
    e.mtime = Some(Timestamp { year: 2024, month: 3, day: 7, hour: 9, minute: 5, second: 0 });
    e
}

#[test]
fn decimal_writes_numbers() {
    assert_eq!(decimal(0), "0");
    assert_eq!(decimal(7), "7");
    assert_eq!(decimal(10), "10");
    assert_eq!(decimal(1_000_001), "1000001");
    assert_eq!(decimal(u64::MAX), "18446744073709551615");
}

#[test]
fn padded_fills_with_zeros() {
    assert_eq!(padded(5, 2), "05");
    assert_eq!(padded(12, 2), "12");
    assert_eq!(padded(123, 2), "123");
    assert_eq!(padded(0, 4), "0000");
    assert_eq!(padded(987, 4), "0987");
    assert_eq!(padded(3, 0), "3");
}

#[test]
fn timestamp_is_written_with_fixed_widths() {
    let t = Timestamp { year: 2024, month: 3, day: 7, hour: 9, minute: 5, second: 0 };
    assert_eq!(t.format(), "2024-03-07 09:05:00");
    let u = Timestamp { year: 1999, month: 12, day: 31, hour: 23, minute: 59, second: 59 };
    assert_eq!(u.format(), "1999-12-31 23:59:59");
    let v = Timestamp { year: 800, month: 1, day: 1, hour: 0, minute: 0, second: 0 };
    assert_eq!(v.format(), "0800-01-01 00:00:00");
}

#[test]
fn join_path_puts_slashes_between_names() {
    assert_eq!(join_path(&names(&[])), "");
    assert_eq!(join_path(&names(&["home"])), "home");
    assert_eq!(join_path(&names(&["home", "alice", "docs"])), "home/alice/docs");
}

#[test]
fn count_lines_counts_as_lines_are_read() {
    assert_eq!(count_lines(&b"".to_vec()), 0);
    assert_eq!(count_lines(&b"a".to_vec()), 1);
    assert_eq!(count_lines(&b"a\n".to_vec()), 1);
    assert_eq!(count_lines(&b"a\nb".to_vec()), 2);
    assert_eq!(count_lines(&b"a\n\n".to_vec()), 2);
    assert_eq!(count_lines(&b"\n".to_vec()), 1);
    for text in ["", "a", "a\n", "a\nb", "a\r\nb\r\n", "\n\n\n", "x\n\ny"] {
        assert_eq!(count_lines(&text.as_bytes().to_vec()), text.lines().count());
    }
}

#[test]
fn row_shows_names_of_owners() {
    let row = ls_row(&full_entry(), false);
    assert_eq!(
        row,
        Row {
            name: "notes.txt".to_string(),
            size: 1234,
            mode: "-rw-r--r--".to_string(),
            user: "alice".to_string(),
            group: "staff".to_string(),
            time: "2024-03-07 09:05:00".to_string(),
        }
    );
}

#[test]
fn row_shows_numbers_of_owners() {
    let row = ls_row(&full_entry(), true);
    assert_eq!(row.user, "1000");
    assert_eq!(row.group, "50");
    assert_eq!(row.name, "notes.txt");
    assert_eq!(row.time, "2024-03-07 09:05:00");
}

#[test]
fn row_shows_a_question_mark_for_what_is_unknown() {
    let bare = Entry::file("x".to_string(), 0);
    let by_name = ls_row(&bare, false);
    assert_eq!((by_name.user.as_str(), by_name.group.as_str(), by_name.time.as_str()), ("?", "?", "?"));
    let by_number = ls_row(&bare, true);
    assert_eq!((by_number.user.as_str(), by_number.group.as_str()), ("?", "?"));
    let mut half = Entry::file("y".to_string(), 0);
    half.user = Some("bob".to_string());
    half.gid = Some(7);
    assert_eq!(ls_row(&half, false).user, "bob");
    assert_eq!(ls_row(&half, false).group, "?");
    assert_eq!(ls_row(&half, true).user, "?");
    assert_eq!(ls_row(&half, true).group, "7");
}

#[test]
fn title_and_footer_are_written_out() {
    assert_eq!(title(&"abcd1234".to_string(), &names(&[])), "abcd1234:");
    assert_eq!(title(&"abcd1234".to_string(), &names(&["home", "alice"])), "abcd1234:home/alice");
    assert_eq!(
        footer(3, Summary { files: 3, dirs: 1, size: 35 }, false),
        "total: 3, files: 3, dirs: 1, size: 35 -  Id names"
    );
    assert_eq!(
        footer(0, Summary { files: 0, dirs: 0, size: 0 }, true),
        "total: 0, files: 0, dirs: 0, size: 0 - numeric IDs"
    );
}

#[test]
fn render_shows_known_totals_of_directories() {
    let sub = TreeId { hi: 0, lo: 2 };
    let other = TreeId { hi: 0, lo: 3 };
    let mut declared = Entry::dir("D".to_string(), other);
    declared.size = 4096;
    let tree = Tree {
        nodes: vec![
            Entry::file("A".to_string(), 10),
            Entry::dir("C".to_string(), sub),
            declared,
        ],
    };
    let mut cache = SummaryMap::new();
    cache.record(sub, Summary { files: 1, dirs: 0, size: 5 });
    let table = render(&tree, &cache, false, &"snap".to_string(), &names(&["p"]), None);
    assert_eq!(table.rows.len(), 3);
    assert_eq!(table.rows[0].size, 10);
    assert_eq!(table.rows[1].size, 5);
    assert_eq!(table.rows[2].size, 4096);
    assert_eq!(table.selected, Some(0));
    assert_eq!(table.title, "snap:p");
    assert_eq!(table.footer, "total: 3, files: 2, dirs: 1, size: 15 -  Id names");
}

#[test]
fn render_keeps_the_selection_unless_the_directory_is_empty() {
    let tree = Tree { nodes: vec![Entry::file("A".to_string(), 1), Entry::file("B".to_string(), 2)] };
    let cache = SummaryMap::new();
    let id = "s".to_string();
    assert_eq!(render(&tree, &cache, false, &id, &names(&[]), Some(1)).selected, Some(1));
    assert_eq!(render(&tree, &cache, false, &id, &names(&[]), None).selected, Some(0));
    let empty = Tree::new();
    let table = render(&empty, &cache, true, &id, &names(&[]), Some(4));
    assert_eq!(table.selected, None);
    assert_eq!(table.rows.len(), 0);
    assert_eq!(table.footer, "total: 0, files: 0, dirs: 0, size: 0 - numeric IDs");
}

#[test]
fn mode_is_written_as_a_letter_and_nine_permissions() {
    assert_eq!(mode_str(FileType::File, Some(0o644)), "-rw-r--r--");
    assert_eq!(mode_str(FileType::Dir, Some(0o755)), "drwxr-xr-x");
    assert_eq!(mode_str(FileType::Symlink, Some(0o777)), "lrwxrwxrwx");
    assert_eq!(mode_str(FileType::Dev, Some(0)), "b---------");
    assert_eq!(mode_str(FileType::Chardev, Some(0o100644)), "crw-r--r--");
    assert_eq!(mode_str(FileType::Fifo, Some(0o421)), "pr---w---x");
    assert_eq!(mode_str(FileType::Socket, None), "s?????????");
    assert_eq!(mode_str(FileType::File, None), "-?????????");
}
