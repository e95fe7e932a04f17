use labolabo_app::commit_pane::{
    format_commit_date, lane_color, row_strokes, Edge, EdgeShape, LaneStroke, RowSpan,
};

fn edge(shape: EdgeShape, lane: usize) -> Edge {
    Edge {
        shape,
        lane,
        color_lane: lane,
    }
}

#[test]
fn lane_color_is_stable_per_lane_and_cycles_through_the_palette() {
    assert_eq!(lane_color(0), lane_color(0));
    assert_eq!(lane_color(0), lane_color(6));
    assert_ne!(lane_color(0), lane_color(1));
    assert_eq!(lane_color(0), 0x5e9eff);
}

#[test]
fn a_leaf_commit_with_no_edges_has_no_segments() {
    assert!(row_strokes(0, &[]).is_empty());
}

#[test]
fn linear_history_row_is_two_vertical_segments_in_the_same_lane_no_horizontal() {
    let strokes = row_strokes(0, &[edge(EdgeShape::NodeIn, 0), edge(EdgeShape::NodeOut, 0)]);
    assert_eq!(strokes.len(), 2);
    assert!(strokes
        .iter()
        .all(|s| matches!(s, LaneStroke::Vertical { .. })));
    assert!(strokes.contains(&LaneStroke::Vertical {
        lane: 0,
        span: RowSpan::TopHalf,
        color_lane: 0,
    }));
    assert!(strokes.contains(&LaneStroke::Vertical {
        lane: 0,
        span: RowSpan::BottomHalf,
        color_lane: 0,
    }));
}

#[test]
fn a_passing_lane_is_a_single_full_height_vertical_segment() {
    let strokes = row_strokes(1, &[edge(EdgeShape::Through, 0)]);
    assert_eq!(
        strokes,
        vec![LaneStroke::Vertical {
            lane: 0,
            span: RowSpan::Full,
            color_lane: 0,
        }]
    );
}

#[test]
fn a_merge_commits_second_parent_gets_a_vertical_and_a_connecting_horizontal() {
    let strokes = row_strokes(0, &[edge(EdgeShape::NodeOut, 0), edge(EdgeShape::NodeOut, 1)]);
    assert_eq!(strokes.len(), 3);
    assert!(strokes.contains(&LaneStroke::Vertical {
        lane: 0,
        span: RowSpan::BottomHalf,
        color_lane: 0,
    }));
    assert!(strokes.contains(&LaneStroke::Vertical {
        lane: 1,
        span: RowSpan::BottomHalf,
        color_lane: 1,
    }));
    assert!(strokes.contains(&LaneStroke::Horizontal {
        from: 0,
        to: 1,
        color_lane: 1,
    }));
}

#[test]
fn a_branch_from_a_lane_left_of_the_node_joins_left_to_right() {
    let strokes = row_strokes(2, &[edge(EdgeShape::NodeIn, 0)]);
    assert_eq!(
        strokes,
        vec![
            LaneStroke::Vertical { lane: 0, span: RowSpan::TopHalf, color_lane: 0 },
            LaneStroke::Horizontal { from: 0, to: 2, color_lane: 0 },
        ]
    );
}

#[test]
fn format_commit_date_renders_utc_calendar_date() {
    assert_eq!(format_commit_date(Some(1_700_000_000)), "2023-11-14");
}

#[test]
fn format_commit_date_of_none_is_empty() {
    assert_eq!(format_commit_date(None), "");
}

#[test]
fn format_commit_date_of_a_timestamp_without_a_date_is_empty() {
    assert_eq!(format_commit_date(Some(i64::MAX)), "");
    assert_eq!(format_commit_date(Some(0)), "1970-01-01");
}
