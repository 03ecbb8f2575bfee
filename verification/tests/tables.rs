use std::cmp::Ordering;
use twinpane::panel::{traverse_direction, traverse_down_target, traverse_up_target, Traverse};
use twinpane::tables::{
    create_name_for_table_view, info_table_items, prepare_items_for_table_view, view_table_items,
    BasicColumn, DirView, InfoColumn, InfoStruct, ModifiedTime, ViewColumn, ViewStruct,
};

fn entry(name: &str, is_dir: bool) -> DirView {
    DirView::new(String::from(name), 0, is_dir, ModifiedTime::NotAvailable)
}

#[test]
fn table_view_name() {
    assert_eq!(create_name_for_table_view("LeftPanel"), "LeftPanel_tableview");
}

#[test]
fn name_column() {
    assert_eq!(entry("/tmp/foo", true).to_column(BasicColumn::Name), "foo/");
    assert_eq!(entry("/tmp/a.txt", false).to_column(BasicColumn::Name), "a.txt");
    assert_eq!(entry("/tmp/foo/", true).to_column(BasicColumn::Name), "foo/");
    assert_eq!(entry("..", true).to_column(BasicColumn::Name), "..");
}

#[test]
fn size_and_time_columns() {
    let d = DirView::new(String::from("/tmp/x"), 1536, false, ModifiedTime::Formatted(String::from("01-Jan-24 10:00")));
    assert_eq!(d.to_column(BasicColumn::Count), "1.50KB");
    assert_eq!(d.to_column(BasicColumn::Rate), "01-Jan-24 10:00");
    let e = DirView::new(String::from("/tmp/x"), 0, false, ModifiedTime::NotAvailable);
    assert_eq!(e.to_column(BasicColumn::Count), "0.00B");
    assert_eq!(e.to_column(BasicColumn::Rate), "Can't");
    let f = DirView::new(String::from("/tmp/x"), 0, false, ModifiedTime::NoMetadata);
    assert_eq!(f.to_column(BasicColumn::Rate), "Cannot check modified:/tmp/x");
}

#[test]
fn name_order() {
    let a = entry("/t/a", false);
    let b = entry("/t/b", false);
    let z = entry("/t/z", true);
    let up = entry("..", true);
    assert_eq!(a.cmp(&b, BasicColumn::Name), Ordering::Less);
    assert_eq!(b.cmp(&a, BasicColumn::Name), Ordering::Greater);
    assert_eq!(a.cmp(&a, BasicColumn::Name), Ordering::Equal);
    assert_eq!(z.cmp(&a, BasicColumn::Name), Ordering::Greater);
    assert_eq!(a.cmp(&z, BasicColumn::Name), Ordering::Less);
    assert_eq!(up.cmp(&a, BasicColumn::Name), Ordering::Greater);
    assert_eq!(a.cmp(&up, BasicColumn::Name), Ordering::Greater);
    assert_eq!(a.cmp(&b, BasicColumn::Count), Ordering::Equal);
    assert_eq!(a.cmp(&b, BasicColumn::Rate), Ordering::Equal);
}

#[test]
fn name_order_hidden_and_components() {
    let hidden = entry("./x", false);
    let visible = entry("y", false);
    assert_eq!(hidden.cmp(&visible, BasicColumn::Name), Ordering::Greater);
    assert_eq!(visible.cmp(&hidden, BasicColumn::Name), Ordering::Less);
    let hd = entry("./x", true);
    let vd = entry("y", true);
    assert_eq!(hd.cmp(&vd, BasicColumn::Name), Ordering::Greater);
    // compared by components, not by bytes: "a/b" before "a.b"
    assert_eq!(entry("a/b", false).cmp(&entry("a.b", false), BasicColumn::Name), Ordering::Less);
    // repeated separators do not count
    assert_eq!(entry("a//b", false).cmp(&entry("a/b", false), BasicColumn::Name), Ordering::Equal);
    // ".." equals "../" component-wise
    assert_eq!(entry("../", true).cmp(&entry("/t/a", false), BasicColumn::Name), Ordering::Greater);
}

#[test]
fn items_get_an_up_entry_below_the_root() {
    let (w, items) = prepare_items_for_table_view("/tmp", true, ModifiedTime::NotAvailable, vec![entry("/tmp/a", false)]);
    assert_eq!(w, 0);
    assert_eq!(items.len(), 2);
    assert_eq!(items[0].name, "..");
    assert_eq!(items[0].size, 0);
    assert_eq!(items[1].name, "/tmp/a");
    let (_, items) = prepare_items_for_table_view("/", true, ModifiedTime::NotAvailable, vec![entry("/a", false)]);
    assert_eq!(items.len(), 1);
    assert_eq!(items[0].name, "/a");
}

#[test]
fn info_items_are_lines() {
    let items = info_table_items("Path: /x\r\nSize: 3\nlast");
    assert_eq!(items.len(), 3);
    assert_eq!(items[0].to_column(InfoColumn::Content), "Path: /x");
    assert_eq!(items[1].to_column(InfoColumn::Content), "Size: 3");
    assert_eq!(items[2].to_column(InfoColumn::Content), "last");
    assert_eq!(items[0].cmp(&items[1], InfoColumn::Content), Ordering::Equal);
    assert_eq!(info_table_items("a\n").len(), 1);
    assert_eq!(info_table_items("").len(), 0);
    assert_eq!(info_table_items("a\n\nb").len(), 3);
    assert_eq!(InfoStruct::new(String::from("q")).to_column(InfoColumn::Content), "q");
}

#[test]
fn view_items_are_numbered_lines() {
    let items = view_table_items("first\nsecond\r\n");
    assert_eq!(items.len(), 2);
    assert_eq!(items[0].to_column(ViewColumn::Count), "0");
    assert_eq!(items[1].to_column(ViewColumn::Count), "1");
    assert_eq!(items[1].to_column(ViewColumn::Content), "second");
    assert_eq!(items[0].cmp(&items[1], ViewColumn::Content), Ordering::Equal);
    assert_eq!(ViewStruct::new(12, String::from("x")).to_column(ViewColumn::Count), "12");
    // a lone carriage return stays
    let lone = view_table_items("a\r");
    assert_eq!(lone[0].to_column(ViewColumn::Content), "a\r");
}

#[test]
fn traverse_targets() {
    assert_eq!(traverse_up_target("/home/artie"), "/home");
    assert_eq!(traverse_up_target("/home"), "/");
    assert_eq!(traverse_up_target("/"), "/");
    assert_eq!(traverse_up_target("a/b/"), "a");
    assert_eq!(traverse_up_target("a/./b/."), "a");
    assert_eq!(traverse_up_target("a"), "");
    assert_eq!(traverse_up_target("./a"), ".");
    assert_eq!(traverse_up_target("."), "");
    assert_eq!(traverse_up_target(""), "");
    assert_eq!(traverse_up_target("a//c/b"), "a//c");
    assert_eq!(traverse_down_target("/home", "artie"), "/home/artie");
    assert_eq!(traverse_down_target("/home", "/tmp/x"), "/tmp/x");
    assert_eq!(traverse_down_target("/", "x"), "/x");
    assert_eq!(traverse_down_target("", "x"), "x");
}

#[test]
fn down_then_up_returns() {
    let d = "/home/artie";
    assert_eq!(traverse_up_target(&traverse_down_target(d, "docs")), d);
    assert_eq!(traverse_up_target(&traverse_down_target("/", "etc")), "/");
}

#[test]
fn submit_direction() {
    assert_eq!(traverse_direction(".."), Traverse::Up);
    assert_eq!(traverse_direction("../"), Traverse::Up);
    assert_eq!(traverse_direction("/tmp/.."), Traverse::Down);
    assert_eq!(traverse_direction("/tmp/x"), Traverse::Down);
}
