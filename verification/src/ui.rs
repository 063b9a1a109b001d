//! The layout decisions of the browser UI: resizing table columns and grid
//! tracks by dragging, the recycled rows of the request list, and the
//! address of the notification websocket.
use vstd::prelude::*;
use vstd::string::*;
use crate::proto::WSNotify;
use crate::uplink::{digits_value, is_digit, lemma_decimal_reads_back};
use crate::text::{decimal, signed_decimal, push_char, push_decimal, push_signed_decimal, push_str, str_eq};

verus! {

// ---------------------------------------------------------------------------
// Text
// ---------------------------------------------------------------------------

/// A CSS length in pixels: the number followed by `px`.
pub fn px(n: i64) -> (res: String)
    ensures
        res@ == signed_decimal(n as int) + "px"@,
{
    let mut s = String::new();
    push_signed_decimal(&mut s, n);
    push_str(&mut s, "px");
    assert(s@ =~= signed_decimal(n as int) + "px"@);
    s
}

/// A pixel length reads back as its number: a `-` for a negative number,
/// then a non-empty run of decimal digits worth its magnitude.
pub proof fn lemma_signed_decimal_reads_back(n: int)
    ensures
        n < 0 ==> signed_decimal(n).len() > 1 && signed_decimal(n)[0] == '-' && digits_value(
            signed_decimal(n).drop_first(),
        ) == -n && forall|i: int| 1 <= i < signed_decimal(n).len() ==> is_digit(#[trigger] signed_decimal(n)[i]),
        n >= 0 ==> signed_decimal(n).len() > 0 && digits_value(signed_decimal(n)) == n && forall|i: int|
            0 <= i < signed_decimal(n).len() ==> is_digit(#[trigger] signed_decimal(n)[i]),
{
    if n < 0 {
        let m = (-n) as nat;
        lemma_decimal_reads_back(m);
        assert(signed_decimal(n).drop_first() =~= decimal(m));
        assert forall|i: int| 1 <= i < signed_decimal(n).len() implies is_digit(#[trigger] signed_decimal(n)[i]) by {
            assert(signed_decimal(n)[i] == decimal(m)[i - 1]);
        }
    } else {
        lemma_decimal_reads_back(n as nat);
    }
}

/// The address of the notification websocket of the page at `host`: `wss`
/// when the page's protocol is exactly `https`, `ws` otherwise.
pub fn events_url(protocol: &str, host: &str) -> (res: String)
    ensures
        res@ == "ws"@ + (if protocol@ == "https"@ {
            seq!['s']
        } else {
            Seq::<char>::empty()
        }) + "://"@ + host@ + "/events"@,
{
    let mut s = String::from_str("ws");
    let secure = str_eq(protocol, "https");
    if secure {
        push_char(&mut s, 's');
    }
    push_str(&mut s, "://");
    push_str(&mut s, host);
    push_str(&mut s, "/events");
    assert(s@ =~= "ws"@ + (if protocol@ == "https"@ {
        seq!['s']
    } else {
        Seq::<char>::empty()
    }) + "://"@ + host@ + "/events"@);
    s
}

/// The row to add to the request list for a notice from the proxy: id,
/// method and URI of a new request; nothing for a response.
pub fn list_row(notice: &WSNotify) -> (res: Option<(u64, &str, &str)>)
    ensures
        match notice {
            WSNotify::NewReq { id, method, uri } => res matches Some((i, m, u)) && i == id && m@ == method@ && u@
                == uri@,
            WSNotify::NewResp { .. } => res is None,
        },
{
    match notice {
        WSNotify::NewReq { id, method, uri } => Some((*id, method.as_str(), uri.as_str())),
        WSNotify::NewResp { .. } => None,
    }
}

// ---------------------------------------------------------------------------
// Resizing
// ---------------------------------------------------------------------------

/// What a drag that starts on an element resizes.
#[derive(Debug, Clone, Copy, PartialEq, Eq, Structural)]
pub enum ResizeTarget {
    /// The handle (`SPAN`) in a table header: a column of the request list.
    TableColumn,
    /// A gutter (`DIV`) between panes of the page grid.
    Gutter,
    /// Anything else: an error.
    Unsupported,
}

/// Chooses what a drag resizes from the node name of its element.
pub fn resize_target(node_name: &str) -> (res: ResizeTarget)
    ensures
        res == (if node_name@ == "SPAN"@ {
            ResizeTarget::TableColumn
        } else if node_name@ == "DIV"@ {
            ResizeTarget::Gutter
        } else {
            ResizeTarget::Unsupported
        }),
{
    if str_eq(node_name, "SPAN") {
        ResizeTarget::TableColumn
    } else if str_eq(node_name, "DIV") {
        ResizeTarget::Gutter
    } else {
        ResizeTarget::Unsupported
    }
}

/// A gutter being dragged: the grid track it follows (the tracks at
/// `track - 1` and `track + 1` around it change size), and whether it
/// separates columns (else rows).
#[derive(Debug, Clone, Copy, PartialEq, Eq, Structural)]
pub struct GutterDrag {
    pub track: usize,
    pub columns: bool,
}

impl GutterDrag {
    /// The gutter that a class name marks, if any.
    pub fn from_class(class_name: &str) -> (res: Option<GutterDrag>)
        ensures
            res == (if class_name@ == "gutter-column-1"@ {
                Some(GutterDrag { track: 1, columns: true })
            } else if class_name@ == "gutter-column-3"@ {
                Some(GutterDrag { track: 3, columns: true })
            } else if class_name@ == "gutter-row-1"@ {
                Some(GutterDrag { track: 1, columns: false })
            } else {
                None
            }),
    {
        if str_eq(class_name, "gutter-column-1") {
            Some(GutterDrag { track: 1, columns: true })
        } else if str_eq(class_name, "gutter-column-3") {
            Some(GutterDrag { track: 3, columns: true })
        } else if str_eq(class_name, "gutter-row-1") {
            Some(GutterDrag { track: 1, columns: false })
        } else {
            None
        }
    }

    /// The CSS property that lists the grid's track sizes along the drag.
    pub fn template_property(&self) -> (res: &'static str)
        ensures
            res@ == (if self.columns {
                "grid-template-columns"@
            } else {
                "grid-template-rows"@
            }),
    {
        if self.columns {
            "grid-template-columns"
        } else {
            "grid-template-rows"
        }
    }

    /// The cursor shown during the drag.
    pub fn cursor(&self) -> (res: &'static str)
        ensures
            res@ == (if self.columns {
                "col-resize"@
            } else {
                "row-resize"@
            }),
    {
        if self.columns {
            "col-resize"
        } else {
            "row-resize"
        }
    }
}

/// The narrowest a table column can be dragged, in pixels.
pub open spec fn min_column_width() -> int {
    60
}

/// The smallest a grid track next to a dragged gutter can become, in pixels.
pub open spec fn min_track_size() -> int {
    150
}

/// The narrowest table column, in pixels.
pub fn min_column_width_px() -> (res: i32)
    ensures
        res == min_column_width(),
{
    60
}

/// The smallest grid track next to a dragged gutter, in pixels.
pub fn min_track_size_px() -> (res: i32)
    ensures
        res == min_track_size(),
{
    150
}

/// `text` cut at every occurrence of `sep`, empty pieces kept (`str::split`
/// with a character).
pub open spec fn split_at_char(text: Seq<char>, sep: char) -> Seq<Seq<char>>
    decreases text.len(),
{
    if text.len() == 0 {
        seq![Seq::<char>::empty()]
    } else {
        let p = split_at_char(text.drop_last(), sep);
        if text.last() == sep {
            p.push(Seq::<char>::empty())
        } else {
            p.update(p.len() - 1, p.last().push(text.last()))
        }
    }
}

proof fn lemma_split_nonempty(text: Seq<char>, sep: char)
    ensures
        split_at_char(text, sep).len() >= 1,
    decreases text.len(),
{
    if text.len() > 0 {
        lemma_split_nonempty(text.drop_last(), sep);
    }
}

/// The column sizes of a `grid-template-columns` value: the text cut at
/// every space.
pub fn column_sizes(template: &str) -> (res: Vec<String>)
    ensures
        texts(res@) == split_at_char(template@, ' '),
{
    let n = template.unicode_len();
    let mut done: Vec<String> = Vec::new();
    let mut cur = String::new();
    let mut i: usize = 0;
    assert(template@.take(0) =~= Seq::<char>::empty());
    while i < n
        invariant
            n == template@.len(),
            i <= n,
            texts(done@).push(cur@) == split_at_char(template@.take(i as int), ' '),
        decreases n - i,
    {
        let c = template.get_char(i);
        let ghost before = template@.take(i as int);
        proof {
            lemma_split_nonempty(before, ' ');
            assert(template@.take(i + 1).drop_last() =~= before);
            assert(template@.take(i + 1).last() == c);
        }
        if c == ' ' {
            let ghost d = texts(done@);
            let piece = cur;
            done.push(piece);
            cur = String::new();
            assert(texts(done@) =~= d.push(piece@));
            assert(texts(done@).push(cur@) =~= split_at_char(template@.take(i + 1), ' '));
        } else {
            let ghost old_cur = cur@;
            push_char(&mut cur, c);
            assert(texts(done@).push(cur@) =~= split_at_char(template@.take(i + 1), ' '));
        }
        i += 1;
    }
    let ghost d = texts(done@);
    let last = cur;
    done.push(last);
    assert(texts(done@) =~= d.push(last@));
    assert(template@.take(n as int) =~= template@);
    done
}

/// Each item followed by a space.
pub open spec fn spaced(items: Seq<Seq<char>>) -> Seq<char>
    decreases items.len(),
{
    if items.len() == 0 {
        Seq::empty()
    } else {
        spaced(items.drop_last()) + items.last() + seq![' ']
    }
}

/// Each track size written `Npx` and followed by a space.
pub open spec fn px_list(tracks: Seq<u32>) -> Seq<char>
    decreases tracks.len(),
{
    if tracks.len() == 0 {
        Seq::empty()
    } else {
        px_list(tracks.drop_last()) + decimal(tracks.last() as nat) + "px "@
    }
}

/// The texts of a list of strings.
pub open spec fn texts(v: Seq<String>) -> Seq<Seq<char>> {
    v.map_values(|s: String| s@)
}

/// The layout limits: a table column is at least 60 pixels wide, a grid
/// track next to a dragged gutter at least 150 pixels, and the request list
/// holds 20 rows before it recycles them.
pub proof fn lemma_layout_limits()
    ensures
        min_column_width() == 60,
        min_track_size() == 150,
        list_capacity() == 20,
{
}

proof fn lemma_split_append_plain(t: Seq<char>, x: Seq<char>, sep: char)
    requires
        !x.contains(sep),
    ensures
        split_at_char(t + x, sep) == split_at_char(t, sep).update(
            split_at_char(t, sep).len() - 1,
            split_at_char(t, sep).last() + x,
        ),
    decreases x.len(),
{
    lemma_split_nonempty(t, sep);
    if x.len() == 0 {
        assert(t + x =~= t);
        assert(split_at_char(t, sep).last() + x =~= split_at_char(t, sep).last());
        assert(split_at_char(t, sep).update(split_at_char(t, sep).len() - 1, split_at_char(t, sep).last())
            =~= split_at_char(t, sep));
    } else {
        let x0 = x.drop_last();
        let c = x.last();
        assert(x0.contains(sep) ==> x.contains(sep)) by {
            if x0.contains(sep) {
                let k = choose|k: int| 0 <= k < x0.len() && x0[k] == sep;
                assert(x[k] == sep);
            }
        }
        assert(c != sep) by {
            assert(x[x.len() - 1] == c);
        }
        lemma_split_append_plain(t, x0, sep);
        assert((t + x).drop_last() =~= t + x0);
        assert((t + x).last() == c);
        let p = split_at_char(t, sep);
        let q = split_at_char(t + x0, sep);
        assert(q.len() == p.len());
        assert(q.last() == p.last() + x0);
        assert(q.last().push(c) =~= p.last() + x);
        assert(q.update(q.len() - 1, q.last().push(c)) =~= p.update(p.len() - 1, p.last() + x));
    }
}

/// A `grid-template-columns` value written from sizes without spaces reads
/// back as those sizes: cutting it at every space gives the sizes, followed
/// by the empty piece after the last space.
pub proof fn lemma_template_reads_back(items: Seq<Seq<char>>)
    requires
        forall|i: int| 0 <= i < items.len() ==> !(#[trigger] items[i]).contains(' '),
    ensures
        split_at_char(spaced(items), ' ') == items.push(Seq::<char>::empty()),
    decreases items.len(),
{
    if items.len() == 0 {
        assert(spaced(items) =~= Seq::<char>::empty());
        assert(items.push(Seq::<char>::empty()) =~= seq![Seq::<char>::empty()]);
    } else {
        let d = items.drop_last();
        let l = items.last();
        assert forall|i: int| 0 <= i < d.len() implies !(#[trigger] d[i]).contains(' ') by {
            assert(d[i] == items[i]);
        }
        lemma_template_reads_back(d);
        assert(!l.contains(' ')) by {
            assert(items[items.len() - 1] == l);
        }
        lemma_split_append_plain(spaced(d), l, ' ');
        let whole = spaced(d) + l + seq![' '];
        assert(spaced(items) == whole);
        assert(whole.drop_last() =~= spaced(d) + l);
        assert(whole.last() == ' ');
        let p = split_at_char(spaced(d), ' ');
        assert(p == d.push(Seq::<char>::empty()));
        assert(p.last() + l =~= l);
        assert(p.update(p.len() - 1, p.last() + l) =~= items);
        assert(split_at_char(whole, ' ') =~= items.push(Seq::<char>::empty()));
    }
}

/// Track sizes are written each as its decimal number, `px` and a space.
pub proof fn lemma_px_list_spaced(tracks: Seq<u32>)
    ensures
        px_list(tracks) == spaced(tracks.map_values(|n: u32| decimal(n as nat) + "px"@)),
    decreases tracks.len(),
{
    if tracks.len() > 0 {
        lemma_px_list_spaced(tracks.drop_last());
        let m = tracks.map_values(|n: u32| decimal(n as nat) + "px"@);
        assert(m.drop_last() =~= tracks.drop_last().map_values(|n: u32| decimal(n as nat) + "px"@));
        assert(m.last() == decimal(tracks.last() as nat) + "px"@);
        reveal_strlit("px ");
        reveal_strlit("px");
        assert(px_list(tracks) =~= spaced(m));
    } else {
        assert(tracks.map_values(|n: u32| decimal(n as nat) + "px"@) =~= Seq::<Seq<char>>::empty());
    }
}

/// The value of `grid-template-columns` for column sizes: each followed by a space.
pub fn join_spaced(items: &Vec<String>) -> (res: String)
    ensures
        res@ == spaced(texts(items@)),
{
    let mut s = String::new();
    let mut i: usize = 0;
    while i < items.len()
        invariant
            i <= items@.len(),
            s@ == spaced(texts(items@).take(i as int)),
        decreases items@.len() - i,
    {
        push_str(&mut s, items[i].as_str());
        push_char(&mut s, ' ');
        assert(texts(items@).take(i + 1).drop_last() =~= texts(items@).take(i as int));
        i += 1;
    }
    assert(texts(items@).take(i as int) =~= texts(items@));
    s
}

/// The value of a grid template for track sizes in pixels.
pub fn join_px(tracks: &Vec<u32>) -> (res: String)
    ensures
        res@ == px_list(tracks@),
{
    let mut s = String::new();
    let mut i: usize = 0;
    while i < tracks.len()
        invariant
            i <= tracks@.len(),
            s@ == px_list(tracks@.take(i as int)),
        decreases tracks@.len() - i,
    {
        push_decimal(&mut s, tracks[i] as u64);
        push_str(&mut s, "px ");
        assert(tracks@.take(i + 1).drop_last() =~= tracks@.take(i as int));
        i += 1;
    }
    assert(tracks@.take(i as int) =~= tracks@);
    s
}

/// Drags the right edge of table column `col` to `width` pixels: below the
/// minimum nothing changes; otherwise the column's size becomes `widthpx`
/// and the new `grid-template-columns` value is returned.
pub fn table_column_move(sizes: &mut Vec<String>, col: usize, width: i32) -> (res: Option<String>)
    requires
        width >= min_column_width() ==> col < old(sizes)@.len(),
    ensures
        width < min_column_width() ==> res is None && final(sizes)@ == old(sizes)@,
        width >= min_column_width() ==> {
            &&& texts(final(sizes)@) == texts(old(sizes)@).update(col as int, signed_decimal(width as int) + "px"@)
            &&& res matches Some(t) && t@ == spaced(texts(final(sizes)@))
        },
{
    if width < 60 {
        return None;
    }
    let w = px(width as i64);
    let ghost wt = w@;
    sizes.set(col, w);
    assert(texts(sizes@) =~= texts(old(sizes)@).update(col as int, wt));
    Some(join_spaced(sizes))
}

/// Drags the gutter after grid track `track - 1` by `delta` pixels: the
/// track before it grows by `delta`, the track after it shrinks by `delta`.
/// A track that would get smaller than the minimum stops the drag; the
/// track before is checked and written first, so a refused second track
/// leaves the first one resized. The new template value is returned when
/// both tracks were resized.
pub fn grid_gutter_move(tracks: &mut Vec<u32>, track: usize, delta: i32) -> (res: Option<String>)
    requires
        1 <= track,
        track - 1 < old(tracks)@.len(),
        i32::MIN <= (old(tracks)@[track - 1] as i32) + delta <= i32::MAX,
        (old(tracks)@[track - 1] as i32) + delta >= min_track_size() ==> track + 1 < old(tracks)@.len() && i32::MIN
            <= (old(tracks)@[track + 1] as i32) - delta <= i32::MAX,
    ensures
        ({
            let o = old(tracks)@;
            let f = final(tracks)@;
            let before = (o[track - 1] as i32) + delta;
            let after = (o[track + 1] as i32) - delta;
            &&& before < min_track_size() ==> res is None && f == o
            &&& before >= min_track_size() && after < min_track_size() ==> res is None && f == o.update(
                track - 1,
                before as u32,
            )
            &&& before >= min_track_size() && after >= min_track_size() ==> f == o.update(
                track - 1,
                before as u32,
            ).update(track + 1, after as u32) && (res matches Some(t) && t@ == px_list(f))
        }),
        ({
            let o = old(tracks)@;
            let f = final(tracks)@;
            res is Some && o[track - 1] <= i32::MAX && o[track + 1] <= i32::MAX ==> f[track - 1] + f[track + 1]
                == o[track - 1] + o[track + 1]
        }),
{
    let before: i32 = (tracks[track - 1] as i32) + delta;
    if before < 150 {
        return None;
    }
    let n: usize = tracks.len();
    assert(track + 1 < n);
    tracks.set(track - 1, before as u32);
    let after: i32 = (tracks[track + 1] as i32) - delta;
    if after < 150 {
        return None;
    }
    tracks.set(track + 1, after as u32);
    Some(join_px(tracks))
}

// ---------------------------------------------------------------------------
// Request list
// ---------------------------------------------------------------------------

/// Rows the list holds before it starts recycling them.
pub open spec fn list_capacity() -> int {
    20
}

/// Whether the list follows new rows: it overflows its box and is scrolled
/// to within one row of the bottom. The row height is needed (and read)
/// only when the list overflows.
pub fn follows_bottom(scroll_height: i32, client_height: i32, scroll_top: i32, item_height: Option<i32>) -> (res: bool)
    requires
        scroll_height > client_height ==> item_height is Some && i32::MIN <= scroll_height - scroll_top
            - item_height->0 <= i32::MAX && i32::MIN <= scroll_height - scroll_top <= i32::MAX,
    ensures
        res == (scroll_height > client_height && scroll_height - scroll_top - item_height->0 <= client_height),
{
    if scroll_height > client_height {
        match item_height {
            Some(h) => scroll_height - scroll_top - h <= client_height,
            None => false,
        }
    } else {
        false
    }
}

/// Where the row for a new request comes from.
#[derive(Debug, Clone, Copy, PartialEq, Eq, Structural)]
pub enum RowSource {
    /// Reuse the topmost row: grow the top spacer by a row and move the row
    /// to the bottom.
    Recycle,
    /// Create a row; when this is the last row the list holds, start the
    /// infinite scrolling.
    Create { start_infinite_scroll: bool },
    /// Add no row: grow the bottom spacer by one row to show that more came.
    MarkPending,
}

/// How the list takes a new request.
#[derive(Debug, Clone, Copy, PartialEq, Eq, Structural)]
pub struct NewItemPlan {
    pub row: RowSource,
    /// Scroll to the bottom after the row was placed.
    pub scroll_to_bottom: bool,
}

/// Plans the placement of a new request in the list, which has `children`
/// rows including its two spacer rows.
pub fn new_item_plan(children: u32, follows: bool) -> (res: NewItemPlan)
    requires
        children >= 2,
    ensures
        ({
            let rows = children - 2;
            &&& rows >= list_capacity() && follows ==> res == NewItemPlan {
                row: RowSource::Recycle,
                scroll_to_bottom: true,
            }
            &&& rows >= list_capacity() && !follows ==> res == NewItemPlan {
                row: RowSource::MarkPending,
                scroll_to_bottom: false,
            }
            &&& rows < list_capacity() ==> res == NewItemPlan {
                row: RowSource::Create { start_infinite_scroll: rows == list_capacity() - 1 },
                scroll_to_bottom: follows,
            }
        }),
{
    let rows = children - 2;
    if rows > 19 {
        if follows {
            NewItemPlan { row: RowSource::Recycle, scroll_to_bottom: true }
        } else {
            NewItemPlan { row: RowSource::MarkPending, scroll_to_bottom: false }
        }
    } else {
        NewItemPlan { row: RowSource::Create { start_infinite_scroll: rows == 19 }, scroll_to_bottom: follows }
    }
}

/// The new height of a spacer that grows by `rows` rows of `item_height`
/// pixels from `current` pixels.
pub fn spacer_height(rows: i32, item_height: i32, current: i32) -> (res: i32)
    requires
        i32::MIN <= rows * item_height <= i32::MAX,
        i32::MIN <= rows * item_height + current <= i32::MAX,
    ensures
        res == rows * item_height + current,
{
    rows * item_height + current
}

/// Whether a spacer's row is hidden after a change by `rows` rows: when
/// it shrank or stayed and is now empty (`height` is read after the change).
pub fn spacer_hidden(rows: i32, height: i32) -> (res: bool)
    ensures
        res == (rows < 1 && height < 1),
{
    rows < 1 && height < 1
}

/// Which spacer of the list came into view.
#[derive(Debug, Clone, Copy, PartialEq, Eq, Structural)]
pub enum SpacerHit {
    Top,
    Bottom,
    Neither,
}

/// How the rows of the list move when a spacer comes into view.
#[derive(Debug, Clone, Copy, PartialEq, Eq, Structural)]
pub enum ScrollShift {
    /// Move the last row to the top: the top spacer shrinks, the bottom one grows.
    Up,
    /// Move the first row to the bottom: the bottom spacer shrinks, the top one grows.
    Down,
    Stay,
}

/// Chooses the shift of rows when a spacer came into view; the top spacer
/// only moves rows while it still stands for some (`top_height > 0`).
pub fn scroll_shift(hit: SpacerHit, top_height: i32) -> (res: ScrollShift)
    ensures
        res == match hit {
            SpacerHit::Top => if top_height > 0 {
                ScrollShift::Up
            } else {
                ScrollShift::Stay
            },
            SpacerHit::Bottom => ScrollShift::Down,
            SpacerHit::Neither => ScrollShift::Stay,
        },
{
    match hit {
        SpacerHit::Top => if top_height > 0 {
            ScrollShift::Up
        } else {
            ScrollShift::Stay
        },
        SpacerHit::Bottom => ScrollShift::Down,
        SpacerHit::Neither => ScrollShift::Stay,
    }
}

impl ScrollShift {
    /// The rows by which the top and the bottom spacer change. A shift
    /// moves rows between the spacers only: the two changes cancel.
    pub fn spacer_rows(&self) -> (res: (i32, i32))
        ensures
            res.0 + res.1 == 0,
            res == match self {
                ScrollShift::Up => (-1i32, 1i32),
                ScrollShift::Down => (1i32, -1i32),
                ScrollShift::Stay => (0i32, 0i32),
            },
    {
        match self {
            ScrollShift::Up => (-1, 1),
            ScrollShift::Down => (1, -1),
            ScrollShift::Stay => (0, 0),
        }
    }
}

} // verus!
