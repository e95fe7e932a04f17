//! The commit-history graph, row by row: which straight strokes a row's
//! lane edges become, the color of each lane, and the date column.
//!
//! Every edge is a vertical stroke in its own lane column: over the whole
//! row height for a lane passing through, the top half for an edge into the
//! row's node, the bottom half for an edge out of it. An edge into or out of
//! the node from another lane also gets a horizontal stroke at mid-height
//! joining its lane to the node's.
use vstd::prelude::*;

verus! {

/// How an edge crosses a row.
#[derive(Debug, Clone, Copy, PartialEq, Eq, Structural)]
pub enum EdgeShape {
    /// A lane passing the row without touching its node.
    Through,
    /// An edge from the row above into the node.
    NodeIn,
    /// An edge from the node to the row below.
    NodeOut,
}

/// One lane edge of a row: its shape, its lane, and the lane whose color it
/// takes.
#[derive(Debug, Clone, Copy, PartialEq, Eq, Structural)]
pub struct Edge {
    pub shape: EdgeShape,
    pub lane: usize,
    pub color_lane: usize,
}

/// The part of the row height a vertical stroke covers.
#[derive(Debug, Clone, Copy, PartialEq, Eq, Structural)]
pub enum RowSpan {
    Full,
    TopHalf,
    BottomHalf,
}

/// One straight stroke of a row's lane graph, in lane columns.
#[derive(Debug, Clone, Copy, PartialEq, Eq, Structural)]
pub enum LaneStroke {
    /// A vertical stroke in `lane` over `span`.
    Vertical { lane: usize, span: RowSpan, color_lane: usize },
    /// A horizontal stroke at mid-height from lane `from` to lane `to`
    /// (`from <= to`).
    Horizontal { from: usize, to: usize, color_lane: usize },
}

/// The strokes of one edge of a row whose node is in `node_lane`.
pub open spec fn edge_strokes(node_lane: usize, e: Edge) -> Seq<LaneStroke> {
    let span = match e.shape {
        EdgeShape::Through => RowSpan::Full,
        EdgeShape::NodeIn => RowSpan::TopHalf,
        EdgeShape::NodeOut => RowSpan::BottomHalf,
    };
    let v = LaneStroke::Vertical { lane: e.lane, span, color_lane: e.color_lane };
    if e.shape != EdgeShape::Through && e.lane != node_lane {
        seq![
            v,
            LaneStroke::Horizontal {
                from: if e.lane < node_lane { e.lane } else { node_lane },
                to: if e.lane < node_lane { node_lane } else { e.lane },
                color_lane: e.color_lane,
            },
        ]
    } else {
        seq![v]
    }
}

/// The strokes of a row's edges, edge by edge.
pub open spec fn row_strokes_of(node_lane: usize, edges: Seq<Edge>) -> Seq<LaneStroke>
    decreases edges.len(),
{
    if edges.len() == 0 {
        Seq::empty()
    } else {
        row_strokes_of(node_lane, edges.drop_last()) + edge_strokes(node_lane, edges.last())
    }
}

/// The strokes of a row whose node is in `node_lane`, edge by edge.
pub fn row_strokes(node_lane: usize, edges: &[Edge]) -> (r: Vec<LaneStroke>)
    ensures
        r@ == row_strokes_of(node_lane, edges@),
{
    let mut out: Vec<LaneStroke> = Vec::new();
    let n = edges.len();
    let mut i: usize = 0;
    while i < n
        invariant
            n == edges@.len(),
            i <= n,
            out@ == row_strokes_of(node_lane, edges@.take(i as int)),
        decreases n - i,
    {
        let e = edges[i];
        let span = match e.shape {
            EdgeShape::Through => RowSpan::Full,
            EdgeShape::NodeIn => RowSpan::TopHalf,
            EdgeShape::NodeOut => RowSpan::BottomHalf,
        };
        let ghost before = out@;
        out.push(LaneStroke::Vertical { lane: e.lane, span, color_lane: e.color_lane });
        if e.shape != EdgeShape::Through && e.lane != node_lane {
            let (from, to) = if e.lane < node_lane {
                (e.lane, node_lane)
            } else {
                (node_lane, e.lane)
            };
            out.push(LaneStroke::Horizontal { from, to, color_lane: e.color_lane });
        }
        proof {
            let t = edges@.take(i + 1);
            assert(t.drop_last() =~= edges@.take(i as int));
            assert(t.last() == e);
            assert(out@ =~= before + edge_strokes(node_lane, e));
        }
        i += 1;
    }
    assert(edges@.take(n as int) =~= edges@);
    out
}

/// The lane colors, cycled through by lane: blue, green, amber, red,
/// violet, cyan.
pub open spec fn lane_palette() -> Seq<u32> {
    seq![0x5e9eff, 0x30d158, 0xff9f0a, 0xff6b6b, 0xbf5af2, 0x64d2ff]
}

/// The color of a lane: the palette entry `lane mod 6`.
pub fn lane_color(lane: usize) -> (r: u32)
    ensures
        r == lane_palette()[(lane % 6) as int],
{
    let k = lane % 6;
    if k == 0 {
        0x5e9eff
    } else if k == 1 {
        0x30d158
    } else if k == 2 {
        0xff9f0a
    } else if k == 3 {
        0xff6b6b
    } else if k == 4 {
        0xbf5af2
    } else {
        0x64d2ff
    }
}

/// Lanes six apart share a color, neighbouring lanes never do.
pub proof fn law_lane_colors_cycle(lane: usize)
    requires
        lane + 6 <= usize::MAX,
    ensures
        lane_palette()[(lane % 6) as int] == lane_palette()[((lane + 6) % 6) as int],
        lane_palette()[(lane % 6) as int] != lane_palette()[((lane + 1) % 6) as int],
{
}

/// The text `chrono` formats the UTC date-time of a Unix timestamp into
/// with the format `format`, or `None` where `chrono` has no date-time for
/// the timestamp.
pub uninterp spec fn chrono_utc_date(secs: i64, format: Seq<char>) -> Option<Seq<char>>;

/// Whether `format`'s only specifiers are the year, month and day (`%Y`,
/// `%m`, `%d`): every `%` is followed by one of them. `chrono` prints every
/// other character as it is; such a format never fails to print.
pub open spec fn is_date_format(format: Seq<char>) -> bool {
    forall|i: int|
        0 <= i < format.len() && #[trigger] format[i] == '%' ==> i + 1 < format.len() && (format[i + 1] == 'Y'
            || format[i + 1] == 'm' || format[i + 1] == 'd')
}

/// The format of the date column: `YYYY-MM-DD`.
pub open spec fn commit_date_format() -> Seq<char> {
    "%Y-%m-%d"@
}

/// `chrono::DateTime::from_timestamp(secs, 0)`, formatted with
/// `format(format)`. Claimed: the text is [`chrono_utc_date`] of `secs` and
/// `format`; which text that is (and for which timestamps `chrono` has no
/// date-time) is left to `chrono`. A format with another specifier could
/// make the printing fail, which panics, so the format is limited to the
/// year, month and day.
#[verifier::external_body]
fn utc_date(secs: i64, format: &str) -> (r: Option<String>)
    requires
        is_date_format(format@),
    ensures
        match r {
            Some(t) => chrono_utc_date(secs, format@) == Some(t@),
            None => chrono_utc_date(secs, format@) is None,
        },
{
    chrono::DateTime::from_timestamp(secs, 0).map(|dt| dt.format(format).to_string())
}

/// The date of a timestamp in the date column's format.
fn date_of(secs: i64) -> (r: Option<String>)
    ensures
        match r {
            Some(t) => chrono_utc_date(secs, commit_date_format()) == Some(t@),
            None => chrono_utc_date(secs, commit_date_format()) is None,
        },
{
    let format = "%Y-%m-%d";
    proof {
        reveal_strlit("%Y-%m-%d");
        assert(format@ == commit_date_format());
        assert(is_date_format(format@)) by {
            assert forall|i: int| 0 <= i < format@.len() && #[trigger] format@[i] == '%' implies i + 1
                < format@.len() && (format@[i + 1] == 'Y' || format@[i + 1] == 'm' || format@[i + 1] == 'd') by {
                assert(i == 0 || i == 3 || i == 6);
            }
        }
    }
    utc_date(secs, format)
}

/// The date column of a commit: the calendar date of its timestamp, or
/// nothing for a missing timestamp or one without a date.
pub open spec fn commit_date_text(epoch_secs: Option<i64>) -> Seq<char> {
    match epoch_secs {
        Some(s) => match chrono_utc_date(s, commit_date_format()) {
            Some(t) => t,
            None => Seq::empty(),
        },
        None => Seq::empty(),
    }
}

/// The date column of a commit (UTC, `YYYY-MM-DD`); empty when there is no
/// timestamp or it has no date.
pub fn format_commit_date(epoch_secs: Option<i64>) -> (r: String)
    ensures
        r@ == commit_date_text(epoch_secs),
{
    match epoch_secs {
        None => String::new(),
        Some(secs) => match date_of(secs) {
            Some(t) => t,
            None => String::new(),
        },
    }
}

} // verus!
