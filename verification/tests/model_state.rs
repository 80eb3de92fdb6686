use footbar::model::UiModel;
use footbar::render::Color;

const ONE_FOCUSED: &[u8] = br#"[{"id":1,"name":"1","rect":{"x":0,"y":0,"width":1920,"height":1080},"layout":"splith","urgent":false,"fullscreen_mode":0,"output":"HDMI-A-1","focused":true,"visible":true}]"#;

const TWO_RECORDS: &[u8] = br#"[
    {"id":1,"name":"1","rect":{"x":0,"y":0,"width":1920,"height":1080},"layout":"splith","urgent":false,"fullscreen_mode":0,"output":"HDMI-A-1","focused":false,"visible":true},
    {"id":2,"name":"2","rect":{"x":0,"y":0,"width":1920,"height":1080},"layout":"splith","urgent":false,"fullscreen_mode":0,"output":"HDMI-A-1","focused":true,"visible":true}
]"#;

#[test]
fn focus_moves() {
    let mut model = UiModel::new();
    model.rebuild_workspaces(&ONE_FOCUSED.to_vec());
    assert_eq!(model.labels.len(), 1);
    assert_eq!(model.labels[0].text, b"1".to_vec());
    assert_eq!(model.labels[0].color, Color::Gray);
    // the subscribe channel fires; the fresh query has two records
    model.rebuild_workspaces(&TWO_RECORDS.to_vec());
    assert_eq!(model.labels.len(), 2);
    assert_eq!(model.labels[0].text, b"1".to_vec());
    assert_eq!(model.labels[0].color, Color::DarkGray);
    assert_eq!(model.labels[1].text, b"2".to_vec());
    assert_eq!(model.labels[1].color, Color::Gray);
}

#[test]
fn empty_workspace_list_keeps_clock() {
    let mut model = UiModel::new();
    model.rebuild_workspaces(&ONE_FOCUSED.to_vec());
    model.tick();
    let clock_before = model.clock.clone();
    assert_eq!(clock_before.len(), 19);
    model.rebuild_workspaces(&b"[]".to_vec());
    assert_eq!(model.labels.len(), 0);
    assert_eq!(model.clock, clock_before);
    model.tick();
    assert_eq!(model.clock.len(), 19);
}

#[test]
fn ipc_tool_missing_then_recovers() {
    let mut model = UiModel::new();
    // a failed spawn hands the model no output at all
    model.rebuild_workspaces(&Vec::new());
    assert_eq!(model.labels.len(), 0);
    // a later successful query populates the row normally
    model.rebuild_workspaces(&ONE_FOCUSED.to_vec());
    assert_eq!(model.labels.len(), 1);
    assert_eq!(model.labels[0].text, b"1".to_vec());
}

#[test]
fn rebuild_is_idempotent_across_prior_contents() {
    let mut a = UiModel::new();
    let mut b = UiModel::new();
    a.rebuild_workspaces(&TWO_RECORDS.to_vec());
    b.rebuild_workspaces(&b"[]".to_vec());
    // different prior rows, equal payloads: equal final rows
    a.rebuild_workspaces(&ONE_FOCUSED.to_vec());
    b.rebuild_workspaces(&ONE_FOCUSED.to_vec());
    assert_eq!(a.labels.len(), b.labels.len());
    for (x, y) in a.labels.iter().zip(b.labels.iter()) {
        assert_eq!(x.text, y.text);
        assert_eq!(x.color, y.color);
    }
}

#[test]
fn event_storm_ends_on_last_query() {
    let mut model = UiModel::new();
    for n in 0..100 {
        if n % 2 == 0 {
            model.rebuild_workspaces(&TWO_RECORDS.to_vec());
        } else {
            model.rebuild_workspaces(&ONE_FOCUSED.to_vec());
        }
        if n % 10 == 0 {
            model.tick();
        }
    }
    // the last of the hundred rebuilds saw the single-record payload
    assert_eq!(model.labels.len(), 1);
    assert_eq!(model.labels[0].text, b"1".to_vec());
    assert_eq!(model.labels[0].color, Color::Gray);
    assert_eq!(model.clock.len(), 19);
}

#[test]
fn tick_leaves_labels_alone() {
    let mut model = UiModel::new();
    model.rebuild_workspaces(&TWO_RECORDS.to_vec());
    model.tick();
    assert_eq!(model.labels.len(), 2);
    assert_eq!(model.labels[1].text, b"2".to_vec());
}
