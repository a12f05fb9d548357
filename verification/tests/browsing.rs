use strata::explorer::{
    click_heading, default_column_width, explorer_column_width, explorer_heading, heading_arrow,
    minimum_column_width, ExplorerColumnLayout, ResizeStart, SortDirection, SortKey, Sorting,
    AUTOFIT_PRESS_INTERVAL, EXPLORER_COLUMNS,
};
use strata::listing::{
    scroll_pane_to_source, source_position_for_view, view_position_for_source, SourceIndexMap,
};
use strata::mode_views::{
    BrowserEvent, BrowserState, FocusPlace, ModeViews, NewEntrySubmission, RenameSubmission,
};
use strata::modes::{
    column_change, density_grid_columns, entry_size, entry_type, grid_card_extent,
    grid_card_icon_slot, group_columns, measured_card_width, metadata_fill_position,
    released_click, should_activate_pointer_click, shows_hidden, BrowserDensity, BrowserMode, ClickActivation,
    ClickCount, ClickEffect, ColumnChange, EntryKind, EntryMetadata, MetadataValue,
    MAX_GRID_THUMBNAIL_SIZE, MIN_GRID_THUMBNAIL_SIZE,
};
use strata::pane::{difference, ColumnSnapshot, PanePage, PaneState, Splice};
use strata::path::Order;
use strata::rows::{bind_row, thumbnail_size_label, RowBinding, RowEntry};
use strata::selection::{
    accepts_drop, dragged_entries, dropped, exclusive_section_click, item_source,
    modified_selection_click, pane_selection, section_focus, selected_source_positions,
    set_selections, sync_browser_selection, SectionSelection, SelectionClick, Transfer,
    INVALID_LIST_POSITION,
};
use strata::type_groups::{
    compare_type_groups, order_type_groups, sync_grid_groups, type_groups_of, value_type_group,
};

#[test]
fn explorer_columns_have_usable_minimum_widths() {
    for index in 0..EXPLORER_COLUMNS {
        let minimum = [160, 70, 80, 110][index];
        assert_eq!(minimum_column_width(index), minimum);
        assert_eq!(explorer_column_width(index, minimum - 1), minimum);
        assert_eq!(explorer_column_width(index, minimum + 1), minimum + 1);
    }
}

#[test]
fn explorer_default_widths_respect_column_minimums() {
    for index in 0..EXPLORER_COLUMNS {
        assert_eq!(default_column_width(index), [160, 90, 120, 150][index]);
        assert!(default_column_width(index) >= minimum_column_width(index));
    }
}

#[test]
fn stored_click_counts_reject_unsupported_values() {
    assert_eq!(ClickCount::from_stored(1), Some(ClickCount::One));
    assert_eq!(ClickCount::from_stored(2), Some(ClickCount::Two));
    assert_eq!(ClickCount::from_stored(0), None);
    assert_eq!(ClickCount::from_stored(3), None);
}

#[test]
fn type_grouping_is_explorer_only() {
    assert!(!BrowserMode::Columns.supports_type_grouping());
    assert!(!BrowserMode::Grid.supports_type_grouping());
    assert!(BrowserMode::Explorer.supports_type_grouping());
}

#[test]
fn click_activation_defaults_follow_view_conventions() {
    assert_eq!(
        ClickActivation::default_for(BrowserMode::Columns),
        ClickActivation {
            files: ClickCount::Two,
            folders: ClickCount::One,
        }
    );
    for mode in [BrowserMode::Grid, BrowserMode::Explorer] {
        assert_eq!(
            ClickActivation::default_for(mode),
            ClickActivation {
                files: ClickCount::Two,
                folders: ClickCount::Two,
            }
        );
    }
}

#[test]
fn single_click_activation_distinguishes_files_and_folders() {
    let activation = ClickActivation {
        files: ClickCount::Two,
        folders: ClickCount::One,
    };

    assert!(should_activate_pointer_click(1, true, activation));
    assert!(!should_activate_pointer_click(1, false, activation));
    assert!(!should_activate_pointer_click(2, true, activation));
}

#[test]
fn alternate_modes_request_missing_metadata_for_bound_entries() {
    let mut entry = EntryMetadata {
        size: MetadataValue::Unknown,
        modified: MetadataValue::Unknown,
        mode: MetadataValue::Unknown,
    };

    assert_eq!(metadata_fill_position(Some(7), &entry, false), Some(7));
    assert_eq!(metadata_fill_position(None, &entry, false), None);

    entry.size = MetadataValue::Known(100);
    assert_eq!(metadata_fill_position(Some(7), &entry, false), Some(7));
    entry.modified = MetadataValue::Known(1);
    assert_eq!(metadata_fill_position(Some(7), &entry, false), None);
    assert_eq!(metadata_fill_position(Some(7), &entry, true), Some(7));
    entry.mode = MetadataValue::Known(0o100644);
    assert_eq!(metadata_fill_position(Some(7), &entry, true), None);
}

#[test]
fn grid_cards_keep_a_uniform_icon_slot_and_two_line_label() {
    assert_eq!(grid_card_icon_slot(26), MIN_GRID_THUMBNAIL_SIZE);
    assert_eq!(grid_card_icon_slot(128), 128);
    assert_eq!(grid_card_icon_slot(512), MAX_GRID_THUMBNAIL_SIZE);
    assert_eq!(grid_card_extent(26), grid_card_extent(64));
    assert_eq!(grid_card_extent(64), (156, 107));
    assert_eq!(grid_card_extent(128), (156, 171));
    assert_eq!(grid_card_extent(256), (256, 299));
    assert_eq!(grid_card_extent(512), grid_card_extent(256));
}

fn std_order(order: Order) -> std::cmp::Ordering {
    match order {
        Order::Before => std::cmp::Ordering::Less,
        Order::Same => std::cmp::Ordering::Equal,
        Order::After => std::cmp::Ordering::Greater,
    }
}

/// Model values as the panes store them: kind, hidden flag, then the display name.
fn value(kind: char, name: &str) -> String {
    format!("{kind}v\t{name}")
}

/// The label of a model value's type.
fn group_of(value: &str) -> String {
    let label = if value.starts_with('d') {
        "Folder"
    } else if value.ends_with(".json") {
        "JSON document"
    } else {
        "Markdown document"
    };
    value_type_group(value, label.to_owned())
}

#[test]
fn folders_lead_the_groups_and_the_rest_are_alphabetical() {
    let mut groups = vec!["Zip archive", "Folder", "JSON document", "audio"];
    groups.sort_by(|left, right| std_order(compare_type_groups(left, right)));

    assert_eq!(groups, ["Folder", "audio", "JSON document", "Zip archive"]);
}

#[test]
fn the_inline_new_entry_row_sorts_ahead_of_every_group() {
    assert_eq!(compare_type_groups("", "Folder"), Order::Before);
    assert_eq!(compare_type_groups("", "JSON document"), Order::Before);
    assert_eq!(group_of(""), "");
}

#[test]
fn every_loaded_type_appears_once_with_folders_first() {
    let values = [
        value('f', "notes.json"),
        value('d', "projects"),
        value('f', "data.json"),
        value('d', "archive"),
    ];
    let labels: Vec<String> = values.iter().map(|value| group_of(value)).collect();

    let groups = type_groups_of(&labels);

    assert_eq!(groups.len(), 2);
    assert_eq!(groups[0], "Folder");
    assert_eq!(groups[1], group_of(&value('f', "notes.json")));
}

#[test]
fn type_group_sort_clusters_mixed_entries_and_keeps_placeholder_first() {
    let mut values = [
        value('f', "notes.json"),
        String::new(),
        value('d', "projects"),
        value('f', "data.json"),
        value('d', "archive"),
        value('f', "README.md"),
    ];
    values.sort_by(|left, right| {
        std_order(compare_type_groups(&group_of(left), &group_of(right)))
    });

    assert_eq!(values[0], "");
    assert_eq!(group_of(&values[1]), "Folder");
    assert_eq!(group_of(&values[2]), "Folder");
    let json = group_of(&value('f', "notes.json"));
    let markdown = group_of(&value('f', "README.md"));
    assert_eq!(group_of(&values[3]), json);
    assert_eq!(group_of(&values[4]), json);
    assert_eq!(group_of(&values[5]), markdown);
    assert_eq!(compare_type_groups(&json, &markdown), Order::Before);
}

#[test]
fn groups_ignore_case_and_keep_the_first_spelling() {
    let labels: Vec<String> = ["zip", "PNG image", "png IMAGE", "Folder", "ÄPFEL", "äpfel"]
        .iter()
        .map(|label| (*label).to_owned())
        .collect();
    assert_eq!(
        type_groups_of(&labels),
        ["Folder", "PNG image", "zip", "ÄPFEL"]
    );
    assert_eq!(compare_type_groups("PNG", "png"), Order::Same);
    assert_eq!(
        order_type_groups("B", "b", "a", "a"),
        Order::After
    );
    assert_eq!(order_type_groups("Folder", "z", "a", "a"), Order::Before);
}

fn labels(texts: &[&str]) -> Vec<String> {
    texts.iter().map(|text| (*text).to_owned()).collect()
}

#[test]
fn group_changes_remove_keep_and_build() {
    let existing = labels(&["Folder", "audio", "zip"]);
    assert!(sync_grid_groups(&existing, &labels(&["Folder", "audio", "zip"])).is_none());
    let change =
        sync_grid_groups(&existing, &labels(&["Folder", "JSON", "zip"])).expect("change");
    assert_eq!(change.removed, vec![1]);
    assert_eq!(change.placed, vec![Some(0), None, Some(2)]);
    let change = sync_grid_groups(&existing, &labels(&["zip", "Folder", "audio"])).expect("order");
    assert!(change.removed.is_empty());
    assert_eq!(change.placed, vec![Some(2), Some(0), Some(1)]);
}

#[test]
fn source_index_map_tracks_filter_sort_and_placeholder() {
    let mut source = vec![1u64, 2, 3];
    let mut map = SourceIndexMap::watch(&source);
    assert_eq!(map.of_view_position(&source, 0), Some(0));
    assert_eq!(map.of_view_position(&source, 2), Some(2));

    source.push(4);
    map.apply(&source, 3, 0, 1);
    assert_eq!(map.of_view_position(&source, 3), Some(3));

    source.insert(1, 5);
    map.apply(&source, 1, 0, 1);
    assert_eq!(map.of_item(source[1]), Some(1));
    assert_eq!(map.of_item(source[4]), Some(4));

    let visible = [1u64, 5, 3, 4];
    assert_eq!(map.of_view_position(&visible, 0), Some(0));
    assert_eq!(map.of_view_position(&visible, 1), Some(1));
    assert_eq!(map.of_view_position(&visible, 3), Some(4));

    let matches = [3u64];
    assert_eq!(map.of_view_position(&matches, 0), Some(3));

    let sorted = [3u64, 5, 4, 1, 2];
    let mapped = map.of_item(sorted[0]);
    assert!(mapped.is_some());
    assert_ne!(
        mapped,
        Some(0),
        "reverse sort should move the first source item off view index 0"
    );
    assert_eq!(map.of_view_position(&sorted, 0), mapped);

    let flattened = [100u64, 1, 5, 2, 3, 4];
    assert!(
        map.of_view_position(&flattened, 0).is_none(),
        "the inline placeholder is not a source entry"
    );
    assert_eq!(map.of_view_position(&flattened, 1), Some(0));

    assert_eq!(
        view_position_for_source(&source, Some(&source), 4),
        Some(4)
    );
    assert_eq!(
        view_position_for_source(&source, Some(&visible), 3),
        Some(2)
    );
    assert_eq!(
        view_position_for_source(&source, Some(&flattened), 0),
        Some(1)
    );
    assert_eq!(view_position_for_source(&source, Some(&matches), 0), None);
    assert_eq!(view_position_for_source(&source, Some(&source), 9), None);
    assert_eq!(view_position_for_source(&source, None, 9), Some(9));
    assert_eq!(source_position_for_view(&map, None, 9), Some(9));
    assert_eq!(source_position_for_view(&map, Some(&sorted), 3), Some(0));

    source.remove(0);
    map.apply(&source, 0, 1, 0);
    assert_eq!(map.of_item(1), None);
    assert_eq!(map.of_item(5), Some(0));
}

#[test]
fn selections_go_through_views_and_back() {
    let source = [10u64, 11, 12, 13];
    let map = SourceIndexMap::watch(&source);
    let first = SectionSelection {
        view: vec![13, 11],
        selected: vec![0, 1],
    };
    let second = SectionSelection {
        view: vec![99, 12, 11],
        selected: vec![0, 1, 2],
    };
    assert_eq!(
        selected_source_positions(&map, &first.view, &first.selected),
        vec![3, 1]
    );
    assert_eq!(section_focus(&map, &first), Some(1));
    let sections = [first, second];
    assert_eq!(pane_selection(&map, &sections), vec![1, 2, 3]);
    assert_eq!(
        sync_browser_selection(&map, &sections, None),
        (vec![1, 2, 3], Some(3))
    );
    assert_eq!(
        sync_browser_selection(&map, &sections, Some(2)),
        (vec![1, 2, 3], Some(2))
    );
    assert_eq!(sync_browser_selection(&map, &[], None), (vec![], None));
    let view = [13u64, 12, 11, 10];
    let selected = set_selections(&source, &view, &[0, 2, 9]);
    assert_eq!(selected, vec![3, 1]);
    assert_eq!(
        selected_source_positions(&map, &view, &selected),
        vec![0, 2]
    );
    assert_eq!(
        scroll_pane_to_source(&source, &[vec![10], vec![13, 12]], 2),
        Some((1, 1))
    );
    assert_eq!(scroll_pane_to_source(&source, &[vec![10]], 2), None);
    assert_eq!(exclusive_section_click(&sections, 0, false, true), vec![1]);
    assert!(exclusive_section_click(&sections, 0, true, true).is_empty());
    assert!(exclusive_section_click(&sections, 0, false, false).is_empty());
}

#[test]
fn clicks_select_ranges_and_toggle() {
    assert_eq!(
        modified_selection_click(7, false, true, Some(3), false),
        (SelectionClick::Range { start: 3, count: 5 }, Some(3))
    );
    assert_eq!(
        modified_selection_click(3, true, true, Some(7), false),
        (SelectionClick::Range { start: 3, count: 5 }, Some(7))
    );
    assert_eq!(
        modified_selection_click(3, false, true, None, false),
        (SelectionClick::Range { start: 3, count: 1 }, None)
    );
    assert_eq!(
        modified_selection_click(3, true, false, None, true),
        (SelectionClick::Unselect(3), Some(3))
    );
    assert_eq!(
        modified_selection_click(3, true, false, None, false),
        (SelectionClick::Select(3), Some(3))
    );
    assert_eq!(
        modified_selection_click(3, false, false, Some(9), false),
        (SelectionClick::Pass, Some(3))
    );
    assert_eq!(
        modified_selection_click(INVALID_LIST_POSITION, true, true, Some(9), false),
        (SelectionClick::Pass, Some(9))
    );
}

#[test]
fn drags_take_the_selection_along() {
    assert_eq!(dragged_entries(2, &[1, 2, 3]), vec![1, 2, 3]);
    assert_eq!(dragged_entries(4, &[1, 2, 3]), vec![4]);
    assert_eq!(item_source(5, None), Some(5));
    assert_eq!(item_source(INVALID_LIST_POSITION, None), None);
    assert_eq!(item_source(5, Some(None)), None);
    assert_eq!(item_source(5, Some(Some(2))), Some(2));
    assert!(accepts_drop(Some(1), Some(true), true));
    assert!(!accepts_drop(Some(1), Some(false), true));
    assert!(!accepts_drop(Some(1), Some(true), false));
    assert!(!accepts_drop(None, Some(true), true));
    assert_eq!(
        dropped(Some((9, true)), Some(vec![1, 2]), true, true),
        Some(Transfer {
            destination: 9,
            sources: vec![1, 2],
            moving: true
        })
    );
    assert_eq!(dropped(Some((9, false)), Some(vec![1]), true, true), None);
    assert_eq!(dropped(Some((9, true)), None, true, true), None);
    assert_eq!(dropped(Some((9, true)), Some(vec![1]), false, true), None);
    assert_eq!(dropped(None, Some(vec![1]), true, false), None);
}

#[test]
fn released_clicks_open_or_preview() {
    let two = ClickActivation::default_for(BrowserMode::Grid);
    let one = ClickActivation {
        files: ClickCount::One,
        folders: ClickCount::One,
    };
    assert_eq!(
        released_click(1, false, false, one, true, true),
        ClickEffect::Activate
    );
    assert_eq!(
        released_click(1, true, false, one, true, true),
        ClickEffect::Nothing
    );
    assert_eq!(
        released_click(1, false, false, two, true, true),
        ClickEffect::Preview
    );
    assert_eq!(
        released_click(1, false, true, two, true, true),
        ClickEffect::Nothing
    );
    assert_eq!(
        released_click(2, false, false, two, true, true),
        ClickEffect::Nothing
    );
    assert_eq!(
        released_click(1, false, false, two, false, true),
        ClickEffect::Nothing
    );
}

#[test]
fn settings_have_defaults_and_names() {
    assert_eq!(BrowserMode::default(), BrowserMode::Columns);
    assert_eq!(BrowserDensity::default(), BrowserDensity::Compact);
    assert_eq!(
        ClickActivation::default(),
        ClickActivation::default_for(BrowserMode::Columns)
    );
    assert_eq!(ClickCount::One.stored(), 1);
    assert_eq!(ClickCount::Two.stored(), 2);
    assert_eq!(BrowserMode::Explorer.page_name(), "explorer");
    assert_eq!(BrowserDensity::Airy.style_class(), "density-airy");
    assert_eq!(density_grid_columns(BrowserDensity::Compact), 20);
    assert_eq!(density_grid_columns(BrowserDensity::Airy), 16);
    assert_eq!(measured_card_width(0), None);
    assert_eq!(measured_card_width(156), Some(160));
    assert_eq!(group_columns(0, None, BrowserDensity::Compact), None);
    assert_eq!(group_columns(1_000, None, BrowserDensity::Compact), Some(6));
    assert_eq!(group_columns(100, Some(160), BrowserDensity::Airy), Some(1));
    assert_eq!(group_columns(9_000, Some(0), BrowserDensity::Airy), Some(16));
    assert_eq!(column_change(3, 3, 3), ColumnChange::Keep);
    assert_eq!(column_change(3, 3, 4), ColumnChange::MaximumFirst);
    assert_eq!(column_change(3, 3, 2), ColumnChange::MinimumFirst);
    assert_eq!(entry_type(EntryKind::SymbolicLink), "Broken link");
    assert_eq!(entry_size(false, MetadataValue::Known(5)), Some(5));
    assert_eq!(entry_size(true, MetadataValue::Known(5)), None);
    assert_eq!(entry_size(false, MetadataValue::Unavailable), None);
    assert_eq!(thumbnail_size_label(64), "64 px");
}

#[test]
fn columns_resize_and_fit() {
    let mut layout = ExplorerColumnLayout::new();
    assert_eq!(layout.cell_request(0), (160, true));
    assert_eq!(layout.cell_request(1), (90, false));
    assert_eq!(layout.set_explorer_column_width(1, 10), 70);
    assert_eq!(layout.cell_request(1), (70, false));
    assert_eq!(layout.cell_request(0), (160, true));
    assert_eq!(
        layout.begin_resize(0, AUTOFIT_PRESS_INTERVAL + 1, 0, &[500], Some(300)),
        ResizeStart::Dragging(300)
    );
    assert_eq!(layout.cell_request(0), (160, true));
    assert_eq!(
        layout.begin_resize(0, 400_000, 0, &[200, 500, 300], None),
        ResizeStart::Fitted(500)
    );
    assert_eq!(layout.cell_request(0), (500, false));
    assert_eq!(
        layout.begin_resize(2, 10, 5, &[], None),
        ResizeStart::Fitted(120)
    );
    assert_eq!(
        layout.begin_resize(2, 0, u64::MAX, &[90], None),
        ResizeStart::Fitted(90)
    );
    assert_eq!(
        layout.begin_resize(3, 900_000, 0, &[], None),
        ResizeStart::Dragging(150)
    );
}

#[test]
fn headings_turn_round_on_a_second_click() {
    let sorting = Sorting {
        key: SortKey::Name,
        direction: SortDirection::Ascending,
    };
    assert_eq!(explorer_heading(3), ("Modified", SortKey::Modified));
    let sorting = click_heading(sorting, 0);
    assert_eq!(sorting.direction, SortDirection::Descending);
    let sorting = click_heading(sorting, 1);
    assert_eq!(
        sorting,
        Sorting {
            key: SortKey::Size,
            direction: SortDirection::Ascending
        }
    );
    assert_eq!(heading_arrow(sorting, 1), Some(SortDirection::Ascending));
    assert_eq!(heading_arrow(sorting, 0), None);
}

fn entry(kind: EntryKind, size: MetadataValue) -> RowEntry {
    RowEntry {
        display_name: "photo.jpg".to_owned(),
        kind,
        metadata: EntryMetadata {
            size,
            modified: MetadataValue::Known(1),
            mode: MetadataValue::Unknown,
        },
        location: 4,
    }
}

#[test]
fn rows_show_entries_or_the_field_for_a_new_one() {
    let file = entry(EntryKind::File, MetadataValue::Known(9));
    match bind_row(Some(3), Some(&file), &[4], true, true) {
        RowBinding::Entry {
            label,
            cut,
            faint,
            fill,
            type_label,
            size,
        } => {
            assert_eq!(label, "photo.jpg");
            assert!(cut && faint);
            assert_eq!(fill, Some(3));
            assert_eq!(type_label, "File");
            assert_eq!(size, Some(9));
        }
        other => panic!("unexpected row {other:?}"),
    }
    let folder = entry(EntryKind::DirectorySymbolicLink, MetadataValue::Known(9));
    assert!(matches!(
        bind_row(Some(3), Some(&folder), &[], false, true),
        RowBinding::Entry {
            cut: false,
            faint: false,
            fill: None,
            size: None,
            ..
        }
    ));
    assert!(matches!(
        bind_row(None, None, &[], false, false),
        RowBinding::NewEntry {
            directory_icon: false
        }
    ));
}

fn snapshot(depth: usize, values: &[&str]) -> ColumnSnapshot {
    ColumnSnapshot {
        depth,
        values: labels(values),
        selected: Vec::new(),
        truncated: false,
        loading: false,
        error: None,
        is_trash: true,
        column_show_hidden: None,
        show_hidden: false,
    }
}

fn browser(depth: usize, values: &[&str]) -> BrowserState {
    BrowserState {
        active_depth: Some(depth),
        snapshot: Some(snapshot(depth, values)),
    }
}

fn splice(position: usize, removed: usize, values: &[&str]) -> Splice {
    Splice {
        position,
        removed,
        values: labels(values),
    }
}

#[test]
fn panes_follow_their_directory() {
    let mut pane = PaneState::new(1, true, false);
    assert_eq!(pane.page, PanePage::Loading);
    assert_eq!(pane.empty_trash, Some(false));
    pane.extend_entries(&vec![splice(0, 0, &["b"]), splice(0, 0, &["a"])]);
    assert_eq!(pane.entries, ["a", "b"]);
    assert_eq!(pane.page, PanePage::Loading);
    pane.finish_load(true);
    assert_eq!(pane.page, PanePage::Content);
    assert_eq!(pane.empty_trash, Some(true));
    assert!(pane.truncated && !pane.spinning);
    pane.change_entries(&vec![splice(0, 3, &["x"])]);
    assert_eq!(pane.entries, ["a", "b"]);
    pane.change_entries(&vec![splice(1, 1, &["c", "d"])]);
    assert_eq!(pane.entries, ["a", "c", "d"]);
    pane.begin_sorting();
    assert!(pane.sorting && pane.spinner_shown);
    pane.extend_entries(&vec![splice(3, 0, &["e"])]);
    pane.end_sorting();
    assert!(!pane.sorting && !pane.spinning);
    pane.reload();
    assert!(pane.detached && pane.entries.is_empty() && !pane.truncated);
    pane.fail_load(&"denied".to_owned());
    assert!(!pane.detached && pane.status_is_error);
    assert_eq!(pane.status, "Unable to read this directory\ndenied");
    assert_eq!(pane.page, PanePage::Status);
    pane.receive_entries(0, &Vec::new());
    assert_eq!(pane.status, "This directory is empty");
    assert!(!pane.status_is_error);
    assert_eq!(pane.empty_trash, Some(false));
    pane.receive_entries(1, &labels(&["z"]));
    assert_eq!(pane.page, PanePage::Content);
    assert!(!pane.reconnect_pane_model());
    let mut failing = snapshot(2, &["a"]);
    failing.error = Some("gone".to_owned());
    let failed = PaneState::from_snapshot(&failing);
    assert_eq!(failed.status, "Unable to read this directory\ngone");
    assert_eq!(failed.page, PanePage::Status);
    failing.loading = true;
    let loading = PaneState::from_snapshot(&failing);
    assert_eq!(loading.page, PanePage::Loading);
    assert!(loading.spinning);
    assert_eq!(loading.status, "This directory is empty");
}

#[test]
fn differences_keep_what_both_lists_have() {
    let present = labels(&["a", "b", "c", "d"]);
    assert!(difference(&present, &present).is_none());
    let change = difference(&present, &labels(&["a", "x", "y", "d"])).expect("change");
    assert_eq!((change.position, change.removed), (1, 2));
    assert_eq!(change.values, ["x", "y"]);
    let change = difference(&present, &labels(&["a", "b"])).expect("shorter");
    assert_eq!((change.position, change.removed), (2, 2));
    assert!(change.values.is_empty());
    let change = difference(&labels(&["a", "a"]), &labels(&["a", "a", "a"])).expect("longer");
    assert_eq!((change.position, change.removed), (2, 0));
    assert_eq!(change.values, ["a"]);
}

#[test]
fn rebuilt_panes_select_and_scroll() {
    let mut state = browser(2, &["a", "b", "c"]);
    let snapshot = state.snapshot.as_mut().expect("snapshot");
    snapshot.selected = vec![2, 0];
    snapshot.column_show_hidden = Some(true);
    let mut views = ModeViews::new();
    let rebuild = views.prepare_mode(BrowserMode::Grid, &state);
    assert_eq!(rebuild.select, Some(vec![2, 0]));
    assert_eq!(rebuild.scroll_to, Some(0));
    assert!(views.grid_pane.as_ref().expect("pane").show_hidden);
    let effect = views.handle(&BrowserEvent::ColumnsTruncated, &state);
    assert_eq!(effect.select, Some(vec![2, 0]));
    assert_eq!(effect.scroll_to, Some(0));
    let rebuild = views.set_group_by_type(true, &browser(2, &["a"]));
    assert_eq!(rebuild.select, Some(Vec::new()));
    assert_eq!(rebuild.scroll_to, None);
    let effect = views.handle(&BrowserEvent::Reset, &state);
    assert!(effect.rebuilt && effect.select.is_none() && effect.scroll_to.is_none());
    assert!(shows_hidden(None, true) && !shows_hidden(None, false));
    assert!(shows_hidden(Some(true), false) && !shows_hidden(Some(false), true));
}

#[test]
fn modes_build_and_drop_their_panes() {
    let mut views = ModeViews::new();
    assert_eq!(views.mode(), BrowserMode::Columns);
    assert_eq!(views.widget(), "columns");
    assert!(!views.prepare_mode(BrowserMode::Columns, &browser(0, &[])).rebuilt);
    assert!(views.prepare_mode(BrowserMode::Grid, &browser(2, &["a"])).rebuilt);
    assert_eq!(views.leading_depth(), Some(2));
    views.show_mode(BrowserMode::Grid);
    assert_eq!(views.widget(), "grid");
    views.clear_inactive_mode(BrowserMode::Grid);
    assert!(views.grid_pane.is_some());
    assert!(views.prepare_mode(BrowserMode::Explorer, &browser(3, &["b"])).rebuilt);
    assert!(views.grid_pane.is_some());
    views.clear_inactive_mode(BrowserMode::Grid);
    assert!(views.grid_pane.is_none());
    assert!(views.shows_depth(3) && views.focus_visible_pane(3));
    assert!(!views.focus_visible_pane(2));
    let silent = BrowserState {
        active_depth: Some(4),
        snapshot: None,
    };
    assert!(!views.set_group_by_type(true, &silent).rebuilt);
    assert!(views.group_by_type && views.shows_depth(3));
    assert!(!views.set_group_by_type(true, &browser(5, &[])).rebuilt);
    let nothing = BrowserState {
        active_depth: None,
        snapshot: None,
    };
    assert!(views.set_group_by_type(false, &nothing).rebuilt);
    assert!(views.explorer_pane.is_none());
    assert_eq!(
        views.selected_positions(&SourceIndexMap::watch(&[]), &[]),
        None
    );
    views.set_density(BrowserDensity::Airy);
    views.set_single_click_previews(false);
    let one = ClickActivation::default_for(BrowserMode::Columns);
    views.set_click_activation(BrowserMode::Columns, one);
    assert_ne!(views.grid_click_activation, one);
    views.set_click_activation(BrowserMode::Grid, one);
    assert_eq!(views.grid_click_activation, one);
    views.set_cut_locations(&[4, 5]);
    assert!(views.is_cut(5) && !views.is_cut(6));
}

fn explorer(values: &[&str]) -> ModeViews {
    let mut views = ModeViews::new();
    views.prepare_mode(BrowserMode::Explorer, &browser(1, values));
    views
}

fn entries(views: &ModeViews) -> Vec<String> {
    views.explorer_pane.as_ref().expect("pane").entries.clone()
}

#[test]
fn events_reach_the_pane_of_their_column() {
    let state = browser(1, &["fresh"]);
    let mut views = explorer(&["a"]);
    let effect = views.handle(
        &BrowserEvent::EntriesInserted {
            depth: 1,
            insertions: vec![splice(1, 0, &["b"])],
        },
        &state,
    );
    assert!(effect.sync_groups && !effect.rebuilt);
    assert_eq!(entries(&views), ["a", "b"]);
    let effect = views.handle(
        &BrowserEvent::EntriesSpliced {
            depth: 2,
            splices: vec![splice(0, 2, &[])],
        },
        &state,
    );
    assert!(!effect.sync_groups);
    assert_eq!(entries(&views), ["a", "b"]);
    let effect = views.handle(
        &BrowserEvent::SelectionSetChanged {
            depth: 1,
            positions: vec![0, 1],
            take_focus: false,
        },
        &state,
    );
    assert_eq!(effect.select, Some(vec![0, 1]));
    assert!(!effect.focus_pane);
    let effect = views.handle(
        &BrowserEvent::FocusChanged {
            depth: 1,
            position: None,
        },
        &state,
    );
    assert_eq!(effect.select, Some(Vec::new()));
    assert!(effect.focus_pane);
    views.handle(&BrowserEvent::ColumnReloaded { depth: 1 }, &state);
    views.handle(
        &BrowserEvent::EntriesPublished {
            depth: 1,
            published: vec![splice(0, 0, &["x", "y"])],
        },
        &state,
    );
    views.handle(
        &BrowserEvent::LoadFinished {
            depth: 1,
            truncated: true,
        },
        &state,
    );
    assert_eq!(entries(&views), ["x", "y"]);
    assert!(views.explorer_pane.as_ref().expect("pane").truncated);
    views.handle(&BrowserEvent::SortingStarted { depth: 1 }, &state);
    views.handle(&BrowserEvent::SortingFinished { depth: 1 }, &state);
    views.handle(
        &BrowserEvent::EntriesReplaced {
            depth: 1,
            count: 1,
            values: labels(&["only"]),
        },
        &state,
    );
    assert_eq!(entries(&views), ["only"]);
    views.handle(
        &BrowserEvent::LoadFailed {
            depth: 1,
            message: "denied".to_owned(),
        },
        &state,
    );
    assert_eq!(
        views.explorer_pane.as_ref().expect("pane").page,
        PanePage::Status
    );
    let effect = views.handle(&BrowserEvent::ColumnAdded { depth: 7 }, &state);
    assert!(!effect.rebuilt);
    let effect = views.handle(&BrowserEvent::ColumnAdded { depth: 1 }, &state);
    assert!(effect.rebuilt);
    assert_eq!(entries(&views), ["fresh"]);
    let effect = views.handle(&BrowserEvent::ColumnsTruncated, &browser(0, &["root"]));
    assert!(effect.rebuilt);
    assert_eq!(views.leading_depth(), Some(0));
    views.handle(&BrowserEvent::Other, &state);
    let effect = views.handle(&BrowserEvent::Reset, &state);
    assert!(effect.rebuilt && views.explorer_pane.is_none());
}

#[test]
fn new_entries_open_and_close_their_row() {
    let mut views = explorer(&[]);
    assert!(!views.begin_new_entry(9, true));
    assert!(views.begin_new_entry(1, true));
    assert!(views.explorer_pane.as_ref().expect("pane").creating);
    assert!(!views.new_entry_is_active());
    views.place_new_entry(true);
    assert!(views.new_entry_is_active());
    assert_eq!(
        views.submit_mode_new_entry(false, true),
        NewEntrySubmission::Ignored
    );
    assert_eq!(
        views.submit_mode_new_entry(true, false),
        NewEntrySubmission::Refocus
    );
    assert_eq!(
        views.submit_mode_new_entry(true, true),
        NewEntrySubmission::CreateDirectory
    );
    let pane = views.explorer_pane.as_ref().expect("pane");
    assert!(!pane.creating);
    assert_eq!(pane.page, PanePage::Status);
    assert_eq!(
        views.submit_mode_new_entry(true, true),
        NewEntrySubmission::Ignored
    );
    assert!(!views.cancel_new_entry());
    assert!(views.begin_new_entry(1, false));
    views.drop_new_entry_row();
    assert!(!views.explorer_pane.as_ref().expect("pane").creating);
    assert!(views.begin_new_entry(1, false));
    views.place_new_entry(false);
    assert_eq!(
        views.submit_mode_new_entry(true, true),
        NewEntrySubmission::CreateFile
    );
    views.begin_new_entry(1, false);
    views.place_new_entry(false);
    views.handle(&BrowserEvent::ColumnAdded { depth: 7 }, &browser(1, &[]));
    assert!(!views.new_entry_is_active());
    let mut columns = ModeViews::new();
    assert!(!columns.begin_new_entry(0, true));
}

#[test]
fn renames_end_fail_or_succeed() {
    let mut views = explorer(&["a"]);
    let name = "a.txt".to_owned();
    assert!(!views.begin_rename(1, &name, false));
    assert!(!views.begin_rename(2, &name, true));
    assert!(views.begin_rename(1, &name, true));
    assert!(views.rename_is_active());
    let other = "b.txt".to_owned();
    assert_eq!(
        views.submit_rename(&name, &name, true),
        RenameSubmission::Unchanged
    );
    assert!(!views.rename_is_active());
    assert_eq!(
        views.submit_rename(&name, &name, false),
        RenameSubmission::Unchanged
    );
    assert_eq!(
        views.submit_rename(&name, &other, false),
        RenameSubmission::Rename
    );
    assert!(!views.rename_is_active());
    assert!(views.begin_rename(1, &name, true));
    assert_eq!(
        views.submit_rename(&"c.txt".to_owned(), &other, false),
        RenameSubmission::Rename
    );
    assert!(views.active_rename.as_ref().expect("rename").sensitive);
    assert_eq!(
        views.submit_rename(&name, &other, true),
        RenameSubmission::Rename
    );
    assert!(!views.active_rename.as_ref().expect("rename").sensitive);
    let state = browser(1, &["a"]);
    let effect = views.handle(
        &BrowserEvent::RenameFailed {
            message: "exists".to_owned(),
        },
        &state,
    );
    assert!(effect.focus_rename);
    let rename = views.active_rename.as_ref().expect("rename");
    assert!(rename.sensitive);
    assert_eq!(rename.error, Some("exists".to_owned()));
    views.handle(&BrowserEvent::RenameCompleted, &state);
    assert!(!views.rename_is_active());
    assert!(!views.cancel_rename());
    let effect = views.handle(
        &BrowserEvent::RenameFailed {
            message: "late".to_owned(),
        },
        &state,
    );
    assert!(!effect.focus_rename);
}

#[test]
fn filters_open_and_close_with_the_focus() {
    let mut views = explorer(&["a"]);
    assert!(views.show_filter());
    assert!(views.explorer_pane.as_ref().expect("pane").filter_open);
    assert!(views.filter_has_focus(FocusPlace::ExplorerFilter));
    assert!(!views.filter_has_focus(FocusPlace::GridFilter));
    assert!(views.item_view_has_focus(FocusPlace::ExplorerItems));
    assert!(!views.item_view_has_focus(FocusPlace::Elsewhere));
    assert!(views.empty_filter_has_focus(FocusPlace::ExplorerFilter, true));
    assert!(!views.empty_filter_has_focus(FocusPlace::ExplorerFilter, false));
    assert_eq!(views.dismiss_focused_filter(FocusPlace::GridFilter), None);
    assert_eq!(
        views.dismiss_focused_filter(FocusPlace::ExplorerFilter),
        Some(BrowserMode::Explorer)
    );
    assert!(!views.explorer_pane.as_ref().expect("pane").filter_open);
    views.set_show_hidden(true);
    assert!(views.explorer_pane.as_ref().expect("pane").show_hidden);
    assert!(!ModeViews::new().show_filter());
    let map = SourceIndexMap::watch(&[7, 8]);
    let sections = [SectionSelection {
        view: vec![8, 7],
        selected: vec![0],
    }];
    assert_eq!(
        views.selected_positions(&map, &sections),
        Some((1, vec![1]))
    );
}
