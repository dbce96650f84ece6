use feedreader::post::Timestamp;
use feedreader::ui::{channel_label, date_label, date_label_from, detail_title, views_label};
use feedreader::theme::{self, Rgb, StyleSpec};
use feedreader::ui::{help_popup, list_rows, post_count_label, Area, ListRow};

#[test]
fn help_popup_sizes() {
    assert_eq!(help_popup(100, 40), Area { x: 20, y: 14, width: 60, height: 12 });
    assert_eq!(help_popup(80, 30), Area { x: 16, y: 9, width: 48, height: 12 });
    assert_eq!(help_popup(30, 5), Area { x: 0, y: 0, width: 40, height: 5 });
}

#[test]
fn list_rows_window() {
    let rows = list_rows(5, 2, 3, 2);
    assert_eq!(rows, vec![ListRow { index: 2, selected: false }, ListRow { index: 3, selected: true }]);
    assert_eq!(list_rows(3, 1, 1, 10).len(), 2);
    assert!(list_rows(3, 3, 0, 10).is_empty());
}

#[test]
fn title_count() {
    assert_eq!(post_count_label(12), " 12 posts");
}

#[test]
fn styles() {
    assert_eq!(
        theme::base(),
        StyleSpec { fg: Some(Rgb { r: 204, g: 204, b: 220 }), bg: Some(Rgb { r: 12, g: 12, b: 20 }), bold: false }
    );
    assert_eq!(theme::channel_name(), StyleSpec { fg: Some(theme::accent()), bg: None, bold: true });
    assert_eq!(theme::channel_name_selected().bg, Some(theme::selected_bg()));
    assert_eq!(theme::selected().bg, Some(Rgb { r: 40, g: 40, b: 70 }));
    assert_eq!(theme::dim().fg, Some(theme::dim_color()));
    assert_eq!(theme::status_bar().bg, Some(theme::status_bg()));
    assert_eq!(theme::status_key().fg, Some(theme::fg()));
    assert_eq!(theme::border(), Rgb { r: 60, g: 60, b: 100 });
}

#[test]
fn labels() {
    assert_eq!(channel_label("chan"), "[chan] ");
    assert_eq!(detail_title("chan"), " chan");
    assert_eq!(views_label(1500), "  |  1500 views");
    assert_eq!(date_label(Timestamp { secs: 1_704_067_260, nanos: 0 }), " 2024-01-01 00:01 UTC");
    assert_eq!(date_label(Timestamp { secs: i64::MAX, nanos: 0 }), " ");
    assert_eq!(date_label_from(Some("x".to_string())), " x");
}
