use vim_picomap::picomap::{Block, Frame, Line, Modifier, Picomap};

#[test]
fn test_picomap_format() {
    let len: usize = 3;
    let height: u64 = 3;
    let changes: Vec<u64> = vec![1, 2, 3];
    let diags: Vec<u64> = vec![0, 0, 0];
    let modifier = Modifier::default();

    let picomap = Picomap::new(changes, diags, modifier);

    assert_eq!(
        picomap.to_strings(len, height),
        vec!["▌ 0100c", "▌ 0200 ", "▌ 0300 ",]
    );
}

#[test]
fn test_picomap_format_zoom_in() {
    let len: usize = 3;
    let height: u64 = 10;
    let changes: Vec<u64> = vec![1, 2, 3];
    let diags: Vec<u64> = vec![0, 0, 0];
    let modifier = Modifier::default();

    let picomap = Picomap::new(changes, diags, modifier);

    assert_eq!(
        picomap.to_strings(len, height),
        vec![
            "▌ 0100c",
            "▌ 0100c",
            "▌ 0100c",
            "▌ 0100c",
            "▌ 0200 ",
            "▌ 0200 ",
            "▌ 0200 ",
            "▌ 0300 ",
            "▌ 0300 ",
            "▌ 0300 ",
        ]
    );
}

#[test]
fn test_picomap_format_zoom_out() {
    let len: usize = 10;
    let height: u64 = 5;
    let changes: Vec<u64> = vec![0, 1, 2, 3, 4, 5, 6, 7, 8, 9];
    let diags: Vec<u64> = vec![0, 0, 0, 0, 0, 0, 0, 0, 0, 0];
    let modifier = Modifier::default();

    let picomap = Picomap::new(changes, diags, modifier);

    assert_eq!(
        picomap.to_strings(len, height),
        vec!["▖ 0100c", "▌ 0300 ", "▌ 0500 ", "▌ 0700 ", "▌ 0900 ",]
    );
}

#[test]
fn test_picomap_empty_geometry_renders_nothing() {
    let modifier = Modifier::default();

    let picomap = Picomap::new(vec![1, 2], vec![0, 0], modifier);
    assert_eq!(picomap.to_strings(0, 5), Vec::<String>::new());
    assert_eq!(picomap.to_strings(2, 0), Vec::<String>::new());
}

#[test]
fn test_picomap_wide_intensity_number() {
    let modifier = Modifier::default();

    let picomap = Picomap::new(vec![u64::MAX], vec![12], modifier);
    assert_eq!(
        picomap.to_strings(1, 1),
        vec!["▌▌1844674407370955161512c"]
    );
}

#[test]
fn test_line_new_all_zero() {
    let line = Line::new(&[0, 0, 0]);

    assert_eq!(line.len(), 3);
    for i in 0..3 {
        assert_eq!(line.get(i), (Block::Empty, 0));
    }
}

#[test]
fn test_line_new_blocks_and_intensities() {
    let line = Line::new(&[2, 0, 7, 5]);

    assert_eq!(line.get(0), (Block::Full, 2));
    assert_eq!(line.get(1), (Block::Top, 2));
    assert_eq!(line.get(2), (Block::Bottom, 7));
    assert_eq!(line.get(3), (Block::Full, 5));
}

#[test]
fn test_scale_row_count() {
    let line = Line::new(&[1, 0, 3]);

    assert_eq!(line.scale(1).len(), 1);
    assert_eq!(line.scale(3).len(), 3);
    assert_eq!(line.scale(7).len(), 7);
}

#[test]
fn test_scale_idempotent_at_own_length() {
    let line = Line::new(&[0, 1, 0, 1, 4]);
    let once = line.scale(5);
    let twice = once.scale(5);

    for i in 0..5 {
        assert_eq!(once.get(i), twice.get(i));
    }
}

#[test]
fn test_scale_smooths_bottom_runs() {
    // Zooming in replicates the Bottom entry of line 1 over rows 2 and 3;
    // the smoothing pass promotes the later row of that run to Full so
    // the pair reads as one solid block.
    let line = Line::new(&[0, 5]);
    assert_eq!(line.get(0), (Block::Empty, 0));
    assert_eq!(line.get(1), (Block::Bottom, 5));

    let scaled = line.scale(4);
    assert_eq!(scaled.get(0), (Block::Empty, 0));
    assert_eq!(scaled.get(1), (Block::Empty, 0));
    assert_eq!(scaled.get(2), (Block::Bottom, 5));
    assert_eq!(scaled.get(3), (Block::Full, 5));
}

#[test]
fn test_frame_contains_normalizes_direction() {
    let forward = Frame { top: 2, bottom: 4 };
    let backward = Frame { top: 4, bottom: 2 };

    // Ten lines at height ten: row windows are single lines.
    for i in 0..10u64 {
        let hit = (2..=4).contains(&i);
        assert_eq!(forward.contains(i, 10, 10), hit);
        assert_eq!(backward.contains(i, 10, 10), hit);
    }
}

#[test]
fn test_modifier_priority_cursor_wins() {
    // Cursor, selection and viewport all cover row 0; the cursor marker
    // outranks both frames whichever order the frames are set in.
    let covering = Frame { top: 0, bottom: 9 };
    let mut modifier = Modifier::new(0, covering);
    modifier.select_frame = Some(covering);
    assert_eq!(modifier.to_char(0, 10, 10), 'c');

    let mut other_order = Modifier::default();
    other_order.select_frame = Some(covering);
    other_order.visible_frame = covering;
    other_order.cursor = 0;
    assert_eq!(other_order.to_char(0, 10, 10), 'c');
}

#[test]
fn test_modifier_priority_select_before_visible() {
    let covering = Frame { top: 0, bottom: 9 };
    let mut modifier = Modifier::new(9, covering);
    assert_eq!(modifier.to_char(0, 10, 10), 'v');

    modifier.select_frame = Some(covering);
    assert_eq!(modifier.to_char(0, 10, 10), 's');
}

#[test]
fn test_modifier_blank_outside_everything() {
    let modifier = Modifier::new(5, Frame { top: 0, bottom: 1 });
    assert_eq!(modifier.to_char(8, 10, 10), ' ');
}
