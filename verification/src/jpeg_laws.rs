//! What rewriting does to a JPEG stream whose segments lead up to its scan
//! data: the stream stays well formed, it carries the new EXIF segment and no
//! other, and everything else is kept byte for byte.

use vstd::prelude::*;

use crate::jpeg::{
    carries_length, declared_length, ends_with_eoi, exif_segment, head_of, owed, pieces_of,
    reaches_scan, remainder_of, rewritten, rewritten_rest, starts_with_soi, Head, Piece,
};

verus! {

/// A stream that opens with the start-of-image marker, whose segments lead up
/// to a start-of-scan marker, and that closes with the end-of-image marker.
pub open spec fn well_formed(stream: Seq<u8>) -> bool {
    &&& starts_with_soi(stream)
    &&& reaches_scan(stream.skip(2))
    &&& ends_with_eoi(stream)
}

/// Tells the EXIF segments from the other pieces.
pub open spec fn is_exif() -> spec_fn(Piece) -> bool {
    |piece: Piece| piece.marker == 0xE1
}

/// Tells the pieces that are no EXIF segments.
pub open spec fn is_other() -> spec_fn(Piece) -> bool {
    |piece: Piece| piece.marker != 0xE1
}

/// The new EXIF segment as a piece of the stream.
pub open spec fn exif_piece(exif: Seq<u8>) -> Piece {
    Piece { marker: 0xE1, bytes: exif_segment(exif) }
}

/// The place of the new segment among the pieces that are kept: behind the
/// first `APP0` segment, or behind them all where there is none.
pub open spec fn place_of_exif(kept: Seq<Piece>) -> int
    decreases kept.len(),
{
    if kept.len() == 0 {
        0
    } else if kept[0].marker == 0xE0 {
        1
    } else {
        1 + place_of_exif(kept.skip(1))
    }
}

/// The kept pieces with the new segment at its place.
pub open spec fn with_exif(kept: Seq<Piece>, piece: Piece) -> Seq<Piece> {
    kept.take(place_of_exif(kept)) + seq![piece] + kept.skip(place_of_exif(kept))
}

/// `bytes` are one segment, from its `0xFF` to the end of its payload.
pub open spec fn whole_segment(bytes: Seq<u8>) -> bool {
    &&& bytes.len() >= 4
    &&& bytes[0] == 0xFF
    &&& carries_length(bytes[1])
    &&& 2 + declared_length(bytes) == bytes.len()
}

proof fn lemma_exif_segment_is_whole(exif: Seq<u8>)
    requires
        exif.len() <= 65533,
    ensures
        whole_segment(exif_segment(exif)),
        exif_segment(exif)[1] == 0xE1,
{
    let n = exif.len() + 2;
    let s = exif_segment(exif);
    assert(s[2] == (n / 256) as u8);
    assert(s[3] == (n % 256) as u8);
    assert(0 <= n / 256 < 256);
    assert(s.len() == exif.len() + 4);
}

/// A whole segment is read as one piece, whatever follows it.
proof fn lemma_segment_then(bytes: Seq<u8>, more: Seq<u8>)
    requires
        whole_segment(bytes),
    ensures
        head_of(bytes + more) == (Head::Segment { marker: bytes[1], size: bytes.len() as usize }),
        pieces_of(bytes + more) == seq![Piece { marker: bytes[1], bytes }] + pieces_of(more),
        remainder_of(bytes + more) == remainder_of(more),
{
    let all = bytes + more;
    assert(all[0] == bytes[0] && all[1] == bytes[1] && all[2] == bytes[2] && all[3] == bytes[3]);
    assert(declared_length(all) == declared_length(bytes));
    assert(bytes.len() <= 65537);
    assert(all.take(bytes.len() as int) =~= bytes);
    assert(all.skip(bytes.len() as int) =~= more);
}

/// A fill byte in front of a marker is read as one piece.
proof fn lemma_fill_then(more: Seq<u8>)
    requires
        more.len() >= 1,
        more[0] == 0xFF,
    ensures
        head_of(seq![0xFFu8] + more) == Head::Fill,
        pieces_of(seq![0xFFu8] + more) == seq![Piece { marker: 0xFF, bytes: seq![0xFFu8] }]
            + pieces_of(more),
        remainder_of(seq![0xFFu8] + more) == remainder_of(more),
{
    let all = seq![0xFFu8] + more;
    assert(all[0] == 0xFF && all[1] == 0xFF);
    assert(all.take(1) =~= seq![0xFFu8]);
    assert(all.skip(1) =~= more);
}

/// Where the segments lead up to the scan data, every piece and the scan
/// data itself open with `0xFF`, and every segment holds its own length field.
proof fn lemma_reaching_scan(rest: Seq<u8>)
    requires
        reaches_scan(rest),
    ensures
        rest.len() >= 2,
        rest[0] == 0xFF,
        head_of(rest) matches Head::Segment { marker, size } ==> size >= 4 && whole_segment(
            rest.take(size as int),
        ) && rest.take(size as int)[1] == marker && reaches_scan(rest.skip(size as int)),
        head_of(rest) == Head::Fill ==> rest.take(1) == seq![0xFFu8] && reaches_scan(rest.skip(1)),
        head_of(rest) == Head::ScanStart || head_of(rest) == Head::Fill || head_of(
            rest,
        ) is Segment,
    decreases rest.len(),
{
    match head_of(rest) {
        Head::Segment { marker, size } => {
            let next = rest.skip(size as int);
            lemma_reaching_scan(next);
            assert(next[0] == rest[size as int]);
            assert(size >= 4);
            let bytes = rest.take(size as int);
            assert(bytes[0] == rest[0] && bytes[1] == rest[1] && bytes[2] == rest[2] && bytes[3]
                == rest[3]);
        },
        Head::Fill => {
            assert(rest.take(1) =~= seq![0xFFu8]);
        },
        _ => {},
    }
}

/// A list of one piece, filtered.
proof fn lemma_filter_one(piece: Piece, pred: spec_fn(Piece) -> bool)
    ensures
        seq![piece].filter(pred) == if pred(piece) {
            seq![piece]
        } else {
            Seq::<Piece>::empty()
        },
        Seq::<Piece>::empty().filter(pred) == Seq::<Piece>::empty(),
{
    reveal_with_fuel(Seq::filter, 2);
    assert(seq![piece].drop_last() =~= Seq::<Piece>::empty());
    assert(Seq::<Piece>::empty().push(piece) =~= seq![piece]);
}

/// A list that opens with one piece, filtered.
proof fn lemma_filter_first(piece: Piece, more: Seq<Piece>, pred: spec_fn(Piece) -> bool)
    ensures
        (seq![piece] + more).filter(pred) == if pred(piece) {
            seq![piece] + more.filter(pred)
        } else {
            more.filter(pred)
        },
{
    lemma_filter_one(piece, pred);
    Seq::filter_distributes_over_add(seq![piece], more, pred);
    assert(Seq::<Piece>::empty() + more.filter(pred) =~= more.filter(pred));
}

/// What the rewritten stretch holds: it opens with a marker, its scan data is
/// that of the stretch, its other pieces are those of the stretch, and its
/// EXIF segments are the new one where that was owed and none where it was not.
spec fn faithful(rest: Seq<u8>, exif: Seq<u8>, pending: bool) -> bool {
    let out = rewritten_rest(rest, exif_segment(exif), pending);
    &&& out.len() >= 2
    &&& out[0] == 0xFF
    &&& remainder_of(out) == remainder_of(rest)
    &&& pieces_of(out).filter(is_other()) == pieces_of(rest).filter(is_other())
    &&& pieces_of(out).filter(is_exif()) == if pending {
        seq![exif_piece(exif)]
    } else {
        Seq::<Piece>::empty()
    }
}

/// The new segment in front of a stretch that owes nothing more.
proof fn lemma_insert_then(tail: Seq<u8>, exif: Seq<u8>)
    requires
        exif.len() <= 65533,
    ensures
        pieces_of(exif_segment(exif) + tail).filter(is_other()) == pieces_of(tail).filter(
            is_other(),
        ),
        pieces_of(exif_segment(exif) + tail).filter(is_exif()) == seq![exif_piece(exif)]
            + pieces_of(tail).filter(is_exif()),
        remainder_of(exif_segment(exif) + tail) == remainder_of(tail),
        (exif_segment(exif) + tail).len() >= 2,
        (exif_segment(exif) + tail)[0] == 0xFF,
{
    let segment = exif_segment(exif);
    lemma_exif_segment_is_whole(exif);
    lemma_segment_then(segment, tail);
    lemma_filter_first(exif_piece(exif), pieces_of(tail), is_other());
    lemma_filter_first(exif_piece(exif), pieces_of(tail), is_exif());
}

proof fn lemma_stop(rest: Seq<u8>, exif: Seq<u8>, pending: bool)
    requires
        head_of(rest) == Head::ScanStart,
        exif.len() <= 65533,
    ensures
        faithful(rest, exif, pending),
{
    let segment = exif_segment(exif);
    let out = rewritten_rest(rest, segment, pending);
    let none = Seq::<Piece>::empty();
    assert(pieces_of(rest) == none);
    lemma_filter_one(exif_piece(exif), is_exif());
    lemma_filter_one(exif_piece(exif), is_other());
    if pending {
        assert(out =~= segment + rest);
        lemma_insert_then(rest, exif);
        assert(seq![exif_piece(exif)] + none =~= seq![exif_piece(exif)]);
    } else {
        assert(out =~= rest);
    }
}

proof fn lemma_dropped(rest: Seq<u8>, exif: Seq<u8>, pending: bool, size: usize)
    requires
        head_of(rest) == (Head::Segment { marker: 0xE1, size }),
        faithful(rest.skip(size as int), exif, pending),
    ensures
        faithful(rest, exif, pending),
{
    let next = rest.skip(size as int);
    let piece = Piece { marker: 0xE1, bytes: rest.take(size as int) };
    assert(pieces_of(rest) == seq![piece] + pieces_of(next));
    lemma_filter_first(piece, pieces_of(next), is_other());
}

proof fn lemma_kept(rest: Seq<u8>, exif: Seq<u8>, pending: bool, marker: u8, size: usize)
    requires
        head_of(rest) == (Head::Segment { marker, size }),
        marker != 0xE1,
        whole_segment(rest.take(size as int)),
        rest.take(size as int)[1] == marker,
        exif.len() <= 65533,
        faithful(rest.skip(size as int), exif, marker != 0xE0 && pending),
    ensures
        faithful(rest, exif, pending),
{
    let segment = exif_segment(exif);
    let out = rewritten_rest(rest, segment, pending);
    let bytes = rest.take(size as int);
    let next = rest.skip(size as int);
    let piece = Piece { marker, bytes };
    let tail = rewritten_rest(next, segment, marker != 0xE0 && pending);
    let middle = if marker == 0xE0 && pending {
        segment + tail
    } else {
        tail
    };
    assert(out =~= bytes + middle) by {
        assert(owed(segment, false) + tail =~= tail);
    }
    assert(pieces_of(rest) == seq![piece] + pieces_of(next));
    lemma_segment_then(bytes, middle);
    lemma_filter_first(piece, pieces_of(next), is_other());
    lemma_filter_first(piece, pieces_of(next), is_exif());
    lemma_filter_first(piece, pieces_of(middle), is_other());
    lemma_filter_first(piece, pieces_of(middle), is_exif());
    if marker == 0xE0 && pending {
        lemma_insert_then(tail, exif);
        assert(seq![exif_piece(exif)] + Seq::<Piece>::empty() =~= seq![exif_piece(exif)]);
    }
}

proof fn lemma_filled(rest: Seq<u8>, exif: Seq<u8>, pending: bool)
    requires
        head_of(rest) == Head::Fill,
        rest.take(1) == seq![0xFFu8],
        faithful(rest.skip(1), exif, pending),
    ensures
        faithful(rest, exif, pending),
{
    let segment = exif_segment(exif);
    let out = rewritten_rest(rest, segment, pending);
    let next = rest.skip(1);
    let piece = Piece { marker: 0xFF, bytes: seq![0xFFu8] };
    let tail = rewritten_rest(next, segment, pending);
    assert(out =~= seq![0xFFu8] + tail);
    lemma_fill_then(tail);
    assert(pieces_of(rest) == seq![piece] + pieces_of(next));
    lemma_filter_first(piece, pieces_of(next), is_other());
    lemma_filter_first(piece, pieces_of(next), is_exif());
    lemma_filter_first(piece, pieces_of(tail), is_other());
    lemma_filter_first(piece, pieces_of(tail), is_exif());
}

/// The pieces of the rewritten stretch are the kept pieces of the stretch,
/// with the new segment at its place where that was owed.
spec fn placed(rest: Seq<u8>, exif: Seq<u8>, pending: bool) -> bool {
    let kept = pieces_of(rest).filter(is_other());
    pieces_of(rewritten_rest(rest, exif_segment(exif), pending)) == if pending {
        with_exif(kept, exif_piece(exif))
    } else {
        kept
    }
}

proof fn lemma_place_in_bounds(kept: Seq<Piece>)
    ensures
        0 <= place_of_exif(kept) <= kept.len(),
    decreases kept.len(),
{
    if kept.len() != 0 && kept[0].marker != 0xE0 {
        lemma_place_in_bounds(kept.skip(1));
    }
}

/// One more kept piece in front moves the place by one, unless the piece is
/// the `APP0` segment itself.
proof fn lemma_with_exif_behind(first: Piece, kept: Seq<Piece>, piece: Piece)
    ensures
        with_exif(seq![first] + kept, piece) == if first.marker == 0xE0 {
            seq![first] + seq![piece] + kept
        } else {
            seq![first] + with_exif(kept, piece)
        },
{
    let all = seq![first] + kept;
    assert(all.skip(1) =~= kept);
    assert(all[0] == first);
    lemma_place_in_bounds(kept);
    let k = place_of_exif(kept);
    if first.marker == 0xE0 {
        assert(all.take(1) =~= seq![first]);
        assert(with_exif(all, piece) =~= seq![first] + seq![piece] + kept);
    } else {
        assert(place_of_exif(all) == 1 + k);
        assert(all.take(1 + k) =~= seq![first] + kept.take(k));
        assert(all.skip(1 + k) =~= kept.skip(k));
        assert(with_exif(all, piece) =~= seq![first] + with_exif(kept, piece));
    }
}

proof fn lemma_placed_stop(rest: Seq<u8>, exif: Seq<u8>, pending: bool)
    requires
        head_of(rest) == Head::ScanStart,
        exif.len() <= 65533,
    ensures
        placed(rest, exif, pending),
{
    let segment = exif_segment(exif);
    let out = rewritten_rest(rest, segment, pending);
    let none = Seq::<Piece>::empty();
    assert(pieces_of(rest) == none);
    lemma_filter_one(exif_piece(exif), is_other());
    if pending {
        assert(out =~= segment + rest);
        lemma_exif_segment_is_whole(exif);
        lemma_segment_then(segment, rest);
        assert(with_exif(none, exif_piece(exif)) =~= seq![exif_piece(exif)]);
        assert(pieces_of(out) =~= seq![exif_piece(exif)]);
    } else {
        assert(out =~= rest);
    }
}

proof fn lemma_placed_dropped(rest: Seq<u8>, exif: Seq<u8>, pending: bool, size: usize)
    requires
        head_of(rest) == (Head::Segment { marker: 0xE1, size }),
        placed(rest.skip(size as int), exif, pending),
    ensures
        placed(rest, exif, pending),
{
    let next = rest.skip(size as int);
    let piece = Piece { marker: 0xE1, bytes: rest.take(size as int) };
    assert(pieces_of(rest) == seq![piece] + pieces_of(next));
    lemma_filter_first(piece, pieces_of(next), is_other());
}

proof fn lemma_placed_kept(rest: Seq<u8>, exif: Seq<u8>, pending: bool, marker: u8, size: usize)
    requires
        head_of(rest) == (Head::Segment { marker, size }),
        marker != 0xE1,
        whole_segment(rest.take(size as int)),
        rest.take(size as int)[1] == marker,
        exif.len() <= 65533,
        placed(rest.skip(size as int), exif, marker != 0xE0 && pending),
    ensures
        placed(rest, exif, pending),
{
    let segment = exif_segment(exif);
    let out = rewritten_rest(rest, segment, pending);
    let bytes = rest.take(size as int);
    let next = rest.skip(size as int);
    let piece = Piece { marker, bytes };
    let tail = rewritten_rest(next, segment, marker != 0xE0 && pending);
    let middle = if marker == 0xE0 && pending {
        segment + tail
    } else {
        tail
    };
    let kept_next = pieces_of(next).filter(is_other());
    assert(out =~= bytes + middle) by {
        assert(owed(segment, false) + tail =~= tail);
    }
    assert(pieces_of(rest) == seq![piece] + pieces_of(next));
    lemma_segment_then(bytes, middle);
    lemma_filter_first(piece, pieces_of(next), is_other());
    lemma_with_exif_behind(piece, kept_next, exif_piece(exif));
    if marker == 0xE0 && pending {
        lemma_exif_segment_is_whole(exif);
        lemma_segment_then(segment, tail);
        assert(pieces_of(out) =~= seq![piece] + seq![exif_piece(exif)] + kept_next);
    }
}

proof fn lemma_placed_filled(rest: Seq<u8>, exif: Seq<u8>, pending: bool)
    requires
        head_of(rest) == Head::Fill,
        rest.take(1) == seq![0xFFu8],
        faithful(rest.skip(1), exif, pending),
        placed(rest.skip(1), exif, pending),
    ensures
        placed(rest, exif, pending),
{
    let segment = exif_segment(exif);
    let out = rewritten_rest(rest, segment, pending);
    let next = rest.skip(1);
    let piece = Piece { marker: 0xFF, bytes: seq![0xFFu8] };
    let tail = rewritten_rest(next, segment, pending);
    let kept_next = pieces_of(next).filter(is_other());
    assert(out =~= seq![0xFFu8] + tail);
    lemma_fill_then(tail);
    assert(pieces_of(rest) == seq![piece] + pieces_of(next));
    lemma_filter_first(piece, pieces_of(next), is_other());
    lemma_with_exif_behind(piece, kept_next, exif_piece(exif));
}

/// The heart of the matter, piece by piece.
proof fn lemma_rewritten_rest(rest: Seq<u8>, exif: Seq<u8>, pending: bool)
    requires
        reaches_scan(rest),
        exif.len() <= 65533,
    ensures
        faithful(rest, exif, pending),
        placed(rest, exif, pending),
    decreases rest.len(),
{
    lemma_reaching_scan(rest);
    match head_of(rest) {
        Head::Segment { marker, size } => {
            if marker == 0xE1 {
                lemma_rewritten_rest(rest.skip(size as int), exif, pending);
                lemma_dropped(rest, exif, pending, size);
                lemma_placed_dropped(rest, exif, pending, size);
            } else {
                lemma_rewritten_rest(rest.skip(size as int), exif, marker != 0xE0 && pending);
                lemma_kept(rest, exif, pending, marker, size);
                lemma_placed_kept(rest, exif, pending, marker, size);
            }
        },
        Head::Fill => {
            lemma_rewritten_rest(rest.skip(1), exif, pending);
            lemma_filled(rest, exif, pending);
            lemma_placed_filled(rest, exif, pending);
        },
        _ => {
            lemma_stop(rest, exif, pending);
            lemma_placed_stop(rest, exif, pending);
        },
    }
}

/// A well-formed stream stays well formed: the rewritten stream opens with
/// the start-of-image marker, its segments lead up to the same scan data, and
/// it closes with the end-of-image marker.
pub proof fn rewritten_is_well_formed(jpeg: Seq<u8>, exif: Seq<u8>)
    requires
        well_formed(jpeg),
        exif.len() <= 65533,
    ensures
        well_formed(rewritten(jpeg, exif)),
{
    let out = rewritten(jpeg, exif);
    let body = rewritten_rest(jpeg.skip(2), exif_segment(exif), true);
    lemma_rewritten_rest(jpeg.skip(2), exif, true);
    assert(out.skip(2) =~= body);
    lemma_remainder_is_suffix(jpeg.skip(2));
    lemma_remainder_is_suffix(body);
    let scan = remainder_of(body);
    assert(scan.len() >= 2);
    assert(scan[0] == 0xFF && scan[1] == 0xDA);
    assert(scan[scan.len() - 1] == jpeg[jpeg.len() - 1]);
    assert(scan.len() >= 3);
    assert(scan[scan.len() - 2] == jpeg[jpeg.len() - 2]);
}

/// What is left behind the pieces is the end of the stretch.
proof fn lemma_remainder_is_suffix(rest: Seq<u8>)
    ensures
        remainder_of(rest).len() <= rest.len(),
        remainder_of(rest) == rest.skip(rest.len() - remainder_of(rest).len()),
    decreases rest.len(),
{
    match head_of(rest) {
        Head::Segment { marker, size } => {
            let next = rest.skip(size as int);
            lemma_remainder_is_suffix(next);
            assert(next.skip(next.len() - remainder_of(next).len()) =~= rest.skip(
                rest.len() - remainder_of(next).len(),
            ));
        },
        Head::Fill => {
            let next = rest.skip(1);
            lemma_remainder_is_suffix(next);
            assert(next.skip(next.len() - remainder_of(next).len()) =~= rest.skip(
                rest.len() - remainder_of(next).len(),
            ));
        },
        _ => {
            assert(rest.skip(0) =~= rest);
        },
    }
}

/// Whatever EXIF segments the stream held before, the rewritten stream holds
/// exactly one: the new one.
pub proof fn rewritten_has_one_exif_segment(jpeg: Seq<u8>, exif: Seq<u8>)
    requires
        starts_with_soi(jpeg),
        reaches_scan(jpeg.skip(2)),
        exif.len() <= 65533,
    ensures
        pieces_of(rewritten(jpeg, exif).skip(2)).filter(is_exif()) == seq![exif_piece(exif)],
{
    lemma_rewritten_rest(jpeg.skip(2), exif, true);
    assert(rewritten(jpeg, exif).skip(2) =~= rewritten_rest(
        jpeg.skip(2),
        exif_segment(exif),
        true,
    ));
}

/// Every piece that is no EXIF segment is kept byte for byte and in its
/// place among the others, and so is the scan data with all that follows it.
pub proof fn rewritten_keeps_other_pieces(jpeg: Seq<u8>, exif: Seq<u8>)
    requires
        starts_with_soi(jpeg),
        reaches_scan(jpeg.skip(2)),
        exif.len() <= 65533,
    ensures
        pieces_of(rewritten(jpeg, exif).skip(2)).filter(is_other()) == pieces_of(
            jpeg.skip(2),
        ).filter(is_other()),
        remainder_of(rewritten(jpeg, exif).skip(2)) == remainder_of(jpeg.skip(2)),
{
    lemma_rewritten_rest(jpeg.skip(2), exif, true);
    assert(rewritten(jpeg, exif).skip(2) =~= rewritten_rest(
        jpeg.skip(2),
        exif_segment(exif),
        true,
    ));
}

/// The pieces of the rewritten stream are the pieces of the stream that are
/// no EXIF segments, in their order, with the new segment behind the first
/// `APP0` segment, or behind them all, right in front of the scan data, where
/// there is none.
pub proof fn rewritten_places_exif_segment(jpeg: Seq<u8>, exif: Seq<u8>)
    requires
        starts_with_soi(jpeg),
        reaches_scan(jpeg.skip(2)),
        exif.len() <= 65533,
    ensures
        pieces_of(rewritten(jpeg, exif).skip(2)) == with_exif(
            pieces_of(jpeg.skip(2)).filter(is_other()),
            exif_piece(exif),
        ),
{
    lemma_rewritten_rest(jpeg.skip(2), exif, true);
    assert(rewritten(jpeg, exif).skip(2) =~= rewritten_rest(
        jpeg.skip(2),
        exif_segment(exif),
        true,
    ));
}

/// Whatever follows the start-of-image marker, the rewritten stream opens
/// with that marker too, and it is longer by the new segment less the EXIF
/// segments that were dropped: never shorter than the new segment and the
/// marker together.
pub proof fn rewritten_opens_with_soi(jpeg: Seq<u8>, exif: Seq<u8>)
    requires
        starts_with_soi(jpeg),
    ensures
        starts_with_soi(rewritten(jpeg, exif)),
        rewritten(jpeg, exif).len() >= 2 + exif_segment(exif).len(),
{
    lemma_rest_holds_owed(jpeg.skip(2), exif_segment(exif), true);
}

/// The rewritten stretch is at least as long as what is owed to it.
proof fn lemma_rest_holds_owed(rest: Seq<u8>, segment: Seq<u8>, pending: bool)
    ensures
        rewritten_rest(rest, segment, pending).len() >= owed(segment, pending).len(),
    decreases rest.len(),
{
    match head_of(rest) {
        Head::Segment { marker, size } => {
            lemma_rest_holds_owed(rest.skip(size as int), segment, pending);
            lemma_rest_holds_owed(rest.skip(size as int), segment, false);
        },
        Head::Fill => {
            lemma_rest_holds_owed(rest.skip(1), segment, pending);
        },
        _ => {},
    }
}

/// The new segment declares the length of the block and of its own two length
/// bytes, high byte first.
pub proof fn exif_segment_declares_its_length(exif: Seq<u8>)
    requires
        exif.len() <= 65533,
    ensures
        exif_segment(exif).len() == exif.len() + 4,
        declared_length(exif_segment(exif)) == exif.len() + 2,
        exif_segment(exif).skip(4) == exif,
        whole_segment(exif_segment(exif)),
{
    lemma_exif_segment_is_whole(exif);
    assert(exif_segment(exif).skip(4) =~= exif);
}

/// Rewriting the rewritten stretch once more gives the rewritten stretch.
spec fn settled(rest: Seq<u8>, exif: Seq<u8>, pending: bool) -> bool {
    let out = rewritten_rest(rest, exif_segment(exif), pending);
    rewritten_rest(out, exif_segment(exif), pending) == out
}

/// A whole segment in front of a stretch is rewritten by its marker.
proof fn lemma_rewritten_behind_segment(bytes: Seq<u8>, more: Seq<u8>, segment: Seq<u8>, pending: bool)
    requires
        whole_segment(bytes),
    ensures
        rewritten_rest(bytes + more, segment, pending) == if bytes[1] == 0xE1 {
            rewritten_rest(more, segment, pending)
        } else if bytes[1] == 0xE0 {
            bytes + owed(segment, pending) + rewritten_rest(more, segment, false)
        } else {
            bytes + rewritten_rest(more, segment, pending)
        },
{
    let all = bytes + more;
    lemma_segment_then(bytes, more);
    assert(all.take(bytes.len() as int) =~= bytes);
    assert(all.skip(bytes.len() as int) =~= more);
}

proof fn lemma_settled_stop(rest: Seq<u8>, exif: Seq<u8>, pending: bool)
    requires
        head_of(rest) == Head::ScanStart,
        exif.len() <= 65533,
    ensures
        settled(rest, exif, pending),
{
    let segment = exif_segment(exif);
    let out = rewritten_rest(rest, segment, pending);
    if pending {
        assert(out =~= segment + rest);
        lemma_exif_segment_is_whole(exif);
        lemma_rewritten_behind_segment(segment, rest, segment, true);
    } else {
        assert(out =~= rest);
    }
}

proof fn lemma_settled_kept(rest: Seq<u8>, exif: Seq<u8>, pending: bool, marker: u8, size: usize)
    requires
        head_of(rest) == (Head::Segment { marker, size }),
        marker != 0xE1,
        whole_segment(rest.take(size as int)),
        rest.take(size as int)[1] == marker,
        exif.len() <= 65533,
        settled(rest.skip(size as int), exif, marker != 0xE0 && pending),
    ensures
        settled(rest, exif, pending),
{
    let segment = exif_segment(exif);
    let out = rewritten_rest(rest, segment, pending);
    let bytes = rest.take(size as int);
    let tail = rewritten_rest(rest.skip(size as int), segment, marker != 0xE0 && pending);
    if marker == 0xE0 && pending {
        assert(out =~= bytes + (segment + tail));
        lemma_exif_segment_is_whole(exif);
        lemma_rewritten_behind_segment(bytes, segment + tail, segment, true);
        lemma_rewritten_behind_segment(segment, tail, segment, false);
        assert(rewritten_rest(out, segment, true) =~= out);
    } else {
        assert(out =~= bytes + tail) by {
            assert(owed(segment, false) + tail =~= tail);
        }
        lemma_rewritten_behind_segment(bytes, tail, segment, pending);
        assert(rewritten_rest(out, segment, pending) =~= out) by {
            assert(owed(segment, false) + tail =~= tail);
        }
    }
}

proof fn lemma_settled_filled(rest: Seq<u8>, exif: Seq<u8>, pending: bool)
    requires
        head_of(rest) == Head::Fill,
        rest.take(1) == seq![0xFFu8],
        faithful(rest.skip(1), exif, pending),
        settled(rest.skip(1), exif, pending),
    ensures
        settled(rest, exif, pending),
{
    let segment = exif_segment(exif);
    let out = rewritten_rest(rest, segment, pending);
    let tail = rewritten_rest(rest.skip(1), segment, pending);
    assert(out =~= seq![0xFFu8] + tail);
    lemma_fill_then(tail);
    assert(out.take(1) =~= seq![0xFFu8]);
    assert(out.skip(1) =~= tail);
}

proof fn lemma_settled(rest: Seq<u8>, exif: Seq<u8>)
    requires
        reaches_scan(rest),
        exif.len() <= 65533,
    ensures
        settled(rest, exif, true),
        settled(rest, exif, false),
    decreases rest.len(),
{
    lemma_reaching_scan(rest);
    match head_of(rest) {
        Head::Segment { marker, size } => {
            lemma_settled(rest.skip(size as int), exif);
            if marker != 0xE1 {
                lemma_settled_kept(rest, exif, true, marker, size);
                lemma_settled_kept(rest, exif, false, marker, size);
            }
        },
        Head::Fill => {
            lemma_settled(rest.skip(1), exif);
            lemma_rewritten_rest(rest.skip(1), exif, true);
            lemma_rewritten_rest(rest.skip(1), exif, false);
            lemma_settled_filled(rest, exif, true);
            lemma_settled_filled(rest, exif, false);
        },
        _ => {
            lemma_settled_stop(rest, exif, true);
            lemma_settled_stop(rest, exif, false);
        },
    }
}

/// Rewriting a stream and then rewriting the result with the same block
/// changes nothing more.
pub proof fn rewriting_twice_changes_nothing(jpeg: Seq<u8>, exif: Seq<u8>)
    requires
        starts_with_soi(jpeg),
        reaches_scan(jpeg.skip(2)),
        exif.len() <= 65533,
    ensures
        rewritten(rewritten(jpeg, exif), exif) == rewritten(jpeg, exif),
{
    let once = rewritten(jpeg, exif);
    let body = rewritten_rest(jpeg.skip(2), exif_segment(exif), true);
    lemma_settled(jpeg.skip(2), exif);
    assert(once.take(2) =~= jpeg.take(2));
    assert(once.skip(2) =~= body);
}

} // verus!
