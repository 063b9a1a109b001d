use rhythm::proto::WSNotify;
use rhythm::ui::column_sizes;
use rhythm::ui::{
    events_url, follows_bottom, grid_gutter_move, join_px, join_spaced, list_row, new_item_plan, px,
    resize_target, scroll_shift, spacer_height, spacer_hidden, table_column_move, GutterDrag, NewItemPlan,
    ResizeTarget, RowSource, ScrollShift, SpacerHit,
};

#[test]
fn pixel_text() {
    assert_eq!(px(0), "0px");
    assert_eq!(px(123), "123px");
    assert_eq!(px(-7), "-7px");
    assert_eq!(px(i64::MIN), format!("{}px", i64::MIN));
}

#[test]
fn websocket_address() {
    assert_eq!(events_url("http:", "localhost:8081"), "ws://localhost:8081/events");
    assert_eq!(events_url("https", "h:1"), "wss://h:1/events");
    assert_eq!(events_url("https:", "h:1"), "ws://h:1/events");
}

#[test]
fn rows_for_notices() {
    let n = WSNotify::NewReq { id: 3, method: "GET".to_string(), uri: "http://a/".to_string() };
    assert_eq!(list_row(&n), Some((3, "GET", "http://a/")));
    assert_eq!(list_row(&WSNotify::NewResp { id: 3, status: 200 }), None);
}

#[test]
fn resize_targets() {
    assert_eq!(resize_target("SPAN"), ResizeTarget::TableColumn);
    assert_eq!(resize_target("DIV"), ResizeTarget::Gutter);
    assert_eq!(resize_target("TD"), ResizeTarget::Unsupported);
    let g = GutterDrag::from_class("gutter-column-3").unwrap();
    assert_eq!(g, GutterDrag { track: 3, columns: true });
    assert_eq!(g.template_property(), "grid-template-columns");
    assert_eq!(g.cursor(), "col-resize");
    let r = GutterDrag::from_class("gutter-row-1").unwrap();
    assert_eq!(r, GutterDrag { track: 1, columns: false });
    assert_eq!(r.template_property(), "grid-template-rows");
    assert_eq!(r.cursor(), "row-resize");
    assert_eq!(GutterDrag::from_class("gutter-column-1"), Some(GutterDrag { track: 1, columns: true }));
    assert_eq!(GutterDrag::from_class("gutter"), None);
}

#[test]
fn table_columns() {
    let mut sizes = vec!["100px".to_string(), "1fr".to_string(), "80px".to_string()];
    assert_eq!(table_column_move(&mut sizes, 0, 59), None);
    assert_eq!(sizes, vec!["100px", "1fr", "80px"]);
    assert_eq!(table_column_move(&mut sizes, 2, 60), Some("100px 1fr 60px ".to_string()));
    assert_eq!(sizes, vec!["100px", "1fr", "60px"]);
    assert_eq!(join_spaced(&vec![]), "");
}

#[test]
fn grid_gutters() {
    let mut tracks = vec![300u32, 5, 400, 5, 200];
    assert_eq!(grid_gutter_move(&mut tracks, 1, 50), Some("350px 5px 350px 5px 200px ".to_string()));
    assert_eq!(tracks[0] + tracks[2], 700);
    assert_eq!(grid_gutter_move(&mut tracks, 1, -201), None);
    assert_eq!(tracks, vec![350, 5, 350, 5, 200]);
    // the track before is written before the track after is checked
    assert_eq!(grid_gutter_move(&mut tracks, 3, 100), None);
    assert_eq!(tracks, vec![350, 5, 450, 5, 200]);
    assert_eq!(join_px(&vec![1, 22]), "1px 22px ");
}

#[test]
fn list_following() {
    assert!(!follows_bottom(100, 200, 0, None));
    assert!(follows_bottom(500, 200, 290, Some(20)));
    assert!(!follows_bottom(500, 200, 200, Some(20)));
}

#[test]
fn new_item_plans() {
    assert_eq!(
        new_item_plan(2, false),
        NewItemPlan { row: RowSource::Create { start_infinite_scroll: false }, scroll_to_bottom: false }
    );
    assert_eq!(
        new_item_plan(21, true),
        NewItemPlan { row: RowSource::Create { start_infinite_scroll: true }, scroll_to_bottom: true }
    );
    assert_eq!(new_item_plan(22, true), NewItemPlan { row: RowSource::Recycle, scroll_to_bottom: true });
    assert_eq!(new_item_plan(22, false), NewItemPlan { row: RowSource::MarkPending, scroll_to_bottom: false });
}

#[test]
fn spacers() {
    assert_eq!(spacer_height(1, 24, 48), 72);
    assert_eq!(spacer_height(-1, 24, 48), 24);
    assert!(spacer_hidden(-1, 0));
    assert!(!spacer_hidden(1, 0));
    assert!(!spacer_hidden(0, 5));
    assert_eq!(scroll_shift(SpacerHit::Top, 24), ScrollShift::Up);
    assert_eq!(scroll_shift(SpacerHit::Top, 0), ScrollShift::Stay);
    assert_eq!(scroll_shift(SpacerHit::Bottom, 0), ScrollShift::Down);
    assert_eq!(scroll_shift(SpacerHit::Neither, 9), ScrollShift::Stay);
    assert_eq!(ScrollShift::Up.spacer_rows(), (-1, 1));
    assert_eq!(ScrollShift::Down.spacer_rows(), (1, -1));
    assert_eq!(ScrollShift::Stay.spacer_rows(), (0, 0));
}

#[test]
fn column_size_split() {
    assert_eq!(column_sizes("100px 1fr 80px"), vec!["100px", "1fr", "80px"]);
    assert_eq!(column_sizes(""), vec![""]);
    assert_eq!(column_sizes("a  b "), vec!["a", "", "b", ""]);
    for t in ["100px 1fr 80px", "x", " ", "ä b"] {
        assert_eq!(column_sizes(t), t.split(' ').map(String::from).collect::<Vec<_>>());
    }
}
