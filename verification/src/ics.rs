//! The serializer: one iCalendar document from a list of shifts.
//!
//! The document is pinned down by `spec_calendar`: the
//! `BEGIN:VCALENDAR`/`VERSION:2.0` header, one six-line `VEVENT` block
//! per shift in input order, the closing `END:VCALENDAR`, and a single
//! newline after every line, the last one too. The lemmas at the end
//! state the document's shape: each shift yields exactly one
//! `BEGIN:VEVENT` and one `END:VEVENT` line, and the blocks stand at
//! increasing offsets in input order.

use vstd::prelude::*;
use vstd::string::StringExecFns;

use crate::codec::encode_spec;
use crate::codec::encode_timestamp;
use crate::codec::escape_field;
use crate::codec::escape_spec;
use crate::codec::lemma_encode_shape;
use crate::codec::lemma_escape_no_newline;
use crate::lines::count_line;
use crate::lines::lemma_count_one_line;
use crate::lines::lemma_count_split;
use crate::lines::lemma_no_newline_concat;
use crate::lines::no_newline;
use crate::shift::InvalidTimestamp;
use crate::shift::Shift;

verus! {

/// The event block for one shift: six newline-terminated lines.
pub open spec fn spec_event(s: Shift) -> Seq<char> {
    "BEGIN:VEVENT\nSUMMARY:"@ + escape_spec(s.title@) + "\nDTSTART:"@ + encode_spec(s.start)
        + "\nDTEND:"@ + encode_spec(s.end) + "\nLOCATION:"@ + escape_spec(s.location@)
        + "\nEND:VEVENT\n"@
}

/// The event blocks of all shifts, in input order.
pub open spec fn spec_events(shifts: Seq<Shift>) -> Seq<char>
    decreases shifts.len(),
{
    if shifts.len() == 0 {
        Seq::empty()
    } else {
        spec_event(shifts[0]) + spec_events(shifts.drop_first())
    }
}

/// The whole document: header, event blocks in input order, footer.
pub open spec fn spec_calendar(shifts: Seq<Shift>) -> Seq<char> {
    "BEGIN:VCALENDAR\nVERSION:2.0\n"@ + spec_events(shifts) + "END:VCALENDAR\n"@
}

/// Serializing one more shift appends its block.
#[verifier::rlimit(100)]
pub proof fn lemma_events_concat(a: Seq<Shift>, b: Seq<Shift>)
    ensures
        spec_events(a + b) == spec_events(a) + spec_events(b),
    decreases a.len(),
{
    if a.len() == 0 {
        assert(a + b =~= b);
        assert(spec_events(a) + spec_events(b) =~= spec_events(b));
    } else {
        assert((a + b)[0] == a[0]);
        assert((a + b).drop_first() =~= a.drop_first() + b);
        lemma_events_concat(a.drop_first(), b);
        let x = spec_event(a[0]);
        let y = spec_events(a.drop_first());
        let z = spec_events(b);
        assert(spec_events(a + b) == x + (y + z));
        assert(x + (y + z) =~= (x + y) + z);
        assert(spec_events(a) == x + y);
    }
}

/// Serializing `s.push(x)` appends the block of `x` at the end.
pub proof fn lemma_events_snoc(s: Seq<Shift>, x: Shift)
    ensures
        spec_events(s.push(x)) == spec_events(s) + spec_event(x),
{
    assert(s.push(x) =~= s + seq![x]);
    lemma_events_concat(s, seq![x]);
    assert(seq![x][0] == x);
    assert(seq![x].drop_first() =~= Seq::<Shift>::empty());
    assert(spec_events(seq![x]) == spec_event(x) + spec_events(Seq::<Shift>::empty()));
    assert(spec_events(Seq::<Shift>::empty()) == Seq::<char>::empty());
    assert(spec_event(x) + Seq::<char>::empty() =~= spec_event(x));
}

/// Serializes the shifts into one iCalendar document: exactly the
/// header `BEGIN:VCALENDAR` and `VERSION:2.0`, one `VEVENT` block per
/// shift in input order, and the trailing `END:VCALENDAR`, every line
/// ended by a single newline. The empty input yields the bare
/// envelope. Validity of the timestamps is asked of the caller;
/// `Timestamp::new` establishes it.
#[verifier::rlimit(100)]
pub fn generate_ics(shifts: Vec<Shift>) -> (r: String)
    requires
        forall|i: int| 0 <= i < shifts@.len() ==> (#[trigger] shifts@[i]).valid(),
    ensures
        r@ == spec_calendar(shifts@),
{
    let mut out = String::from_str("BEGIN:VCALENDAR\nVERSION:2.0\n");
    let mut i: usize = 0;
    proof {
        assert(shifts@.take(0) =~= Seq::<Shift>::empty());
        assert(out@ =~= "BEGIN:VCALENDAR\nVERSION:2.0\n"@ + spec_events(shifts@.take(0)));
    }
    while i < shifts.len()
        invariant
            forall|j: int| 0 <= j < shifts@.len() ==> (#[trigger] shifts@[j]).valid(),
            i <= shifts@.len(),
            out@ == "BEGIN:VCALENDAR\nVERSION:2.0\n"@ + spec_events(shifts@.take(i as int)),
        decreases shifts@.len() - i,
    {
        let shift = &shifts[i];
        out.append("BEGIN:VEVENT\nSUMMARY:");
        let title = escape_field(shift.title.as_str());
        out.append(title.as_str());
        out.append("\nDTSTART:");
        let start = encode_timestamp(&shift.start);
        out.append(start.as_str());
        out.append("\nDTEND:");
        let end = encode_timestamp(&shift.end);
        out.append(end.as_str());
        out.append("\nLOCATION:");
        let location = escape_field(shift.location.as_str());
        out.append(location.as_str());
        out.append("\nEND:VEVENT\n");
        proof {
            lemma_events_snoc(shifts@.take(i as int), shifts@[i as int]);
            assert(shifts@.take(i as int).push(shifts@[i as int]) =~= shifts@.take(i as int + 1));
            let hdr = "BEGIN:VCALENDAR\nVERSION:2.0\n"@;
            let done = spec_events(shifts@.take(i as int));
            let seg1 = "BEGIN:VEVENT\nSUMMARY:"@;
            let tt = escape_spec(shifts@[i as int].title@);
            let seg2 = "\nDTSTART:"@;
            let ss = encode_spec(shifts@[i as int].start);
            let seg3 = "\nDTEND:"@;
            let ee = encode_spec(shifts@[i as int].end);
            let seg4 = "\nLOCATION:"@;
            let ll = escape_spec(shifts@[i as int].location@);
            let seg5 = "\nEND:VEVENT\n"@;
            let block = ((((((((seg1 + tt) + seg2) + ss) + seg3) + ee) + seg4) + ll) + seg5);
            assert(spec_event(shifts@[i as int]) == block);
            assert(out@ == ((((((((((hdr + done) + seg1) + tt) + seg2) + ss) + seg3) + ee) + seg4) + ll)
                + seg5));
            assert(((((((((((hdr + done) + seg1) + tt) + seg2) + ss) + seg3) + ee) + seg4) + ll) + seg5) =~= hdr
                + (done + block));
            assert(out@ == "BEGIN:VCALENDAR\nVERSION:2.0\n"@ + spec_events(
                shifts@.take(i as int + 1),
            ));
        }
        i = i + 1;
    }
    out.append("END:VCALENDAR\n");
    proof {
        assert(shifts@.take(shifts@.len() as int) =~= shifts@);
        assert(out@ =~= spec_calendar(shifts@));
    }
    out
}

/// Serializes after checking every instant: returns the document
/// exactly when all timestamp components are in calendar range, and
/// `InvalidTimestamp` otherwise. One out-of-range instant aborts the
/// whole document; no partial output is handed back.
pub fn generate_ics_checked(shifts: Vec<Shift>) -> (r: Result<String, InvalidTimestamp>)
    ensures
        r is Ok <==> (forall|i: int| 0 <= i < shifts@.len() ==> (#[trigger] shifts@[i]).valid()),
        r matches Ok(doc) ==> doc@ == spec_calendar(shifts@),
{
    let mut i: usize = 0;
    while i < shifts.len()
        invariant
            i <= shifts@.len(),
            forall|j: int| 0 <= j < i ==> (#[trigger] shifts@[j]).valid(),
        decreases shifts@.len() - i,
    {
        if !shifts[i].is_valid() {
            return Err(InvalidTimestamp);
        }
        i = i + 1;
    }
    Ok(generate_ics(shifts))
}

/// One event block holds exactly one `BEGIN:VEVENT` line and one
/// `END:VEVENT` line, whatever the shift's fields hold: field lines
/// carry their property name in front, and escaping keeps newlines out
/// of the values.
#[verifier::rlimit(100)]
pub proof fn lemma_count_event(s: Shift)
    ensures
        count_line(spec_event(s), "BEGIN:VEVENT"@) == 1,
        count_line(spec_event(s), "END:VEVENT"@) == 1,
        spec_event(s).len() > 0,
        spec_event(s).last() == '\n',
{
    reveal_strlit("BEGIN:VEVENT\nSUMMARY:");
    reveal_strlit("\nDTSTART:");
    reveal_strlit("\nDTEND:");
    reveal_strlit("\nLOCATION:");
    reveal_strlit("\nEND:VEVENT\n");
    reveal_strlit("BEGIN:VEVENT");
    reveal_strlit("SUMMARY:");
    reveal_strlit("DTSTART:");
    reveal_strlit("DTEND:");
    reveal_strlit("LOCATION:");
    reveal_strlit("END:VEVENT");
    let nl = seq!['\n'];
    let l1 = "BEGIN:VEVENT"@;
    let l2 = "SUMMARY:"@ + escape_spec(s.title@);
    let l3 = "DTSTART:"@ + encode_spec(s.start);
    let l4 = "DTEND:"@ + encode_spec(s.end);
    let l5 = "LOCATION:"@ + escape_spec(s.location@);
    let l6 = "END:VEVENT"@;
    lemma_escape_no_newline(s.title@);
    lemma_escape_no_newline(s.location@);
    lemma_encode_shape(s.start);
    lemma_encode_shape(s.end);
    assert(no_newline(l1));
    lemma_no_newline_concat("SUMMARY:"@, escape_spec(s.title@));
    lemma_no_newline_concat("DTSTART:"@, encode_spec(s.start));
    lemma_no_newline_concat("DTEND:"@, encode_spec(s.end));
    lemma_no_newline_concat("LOCATION:"@, escape_spec(s.location@));
    assert(no_newline(l6));
    let r5 = l6 + nl;
    let r4 = (l5 + nl) + r5;
    let r3 = (l4 + nl) + r4;
    let r2 = (l3 + nl) + r3;
    let r1 = (l2 + nl) + r2;
    assert(spec_event(s) =~= (l1 + nl) + r1);
    assert((l1 + nl).last() == '\n');
    assert((l2 + nl).last() == '\n');
    assert((l3 + nl).last() == '\n');
    assert((l4 + nl).last() == '\n');
    assert((l5 + nl).last() == '\n');
    assert(r5.last() == '\n');
    assert(spec_event(s).last() == '\n');
    let t1 = "BEGIN:VEVENT"@;
    let t2 = "END:VEVENT"@;
    assert(l2[0] == 'S' && l5[0] == 'L' && t1[0] == 'B' && t2[0] == 'E');
    assert(l3.len() == 23 && l4.len() == 21);
    assert(l1.len() == 12 && l6.len() == 10 && t1.len() == 12 && t2.len() == 10);
    lemma_count_split(l1 + nl, r1, t1, Seq::empty());
    lemma_count_split(l2 + nl, r2, t1, Seq::empty());
    lemma_count_split(l3 + nl, r3, t1, Seq::empty());
    lemma_count_split(l4 + nl, r4, t1, Seq::empty());
    lemma_count_split(l5 + nl, r5, t1, Seq::empty());
    lemma_count_split(l1 + nl, r1, t2, Seq::empty());
    lemma_count_split(l2 + nl, r2, t2, Seq::empty());
    lemma_count_split(l3 + nl, r3, t2, Seq::empty());
    lemma_count_split(l4 + nl, r4, t2, Seq::empty());
    lemma_count_split(l5 + nl, r5, t2, Seq::empty());
    lemma_count_one_line(l1, t1, Seq::empty());
    lemma_count_one_line(l2, t1, Seq::empty());
    lemma_count_one_line(l3, t1, Seq::empty());
    lemma_count_one_line(l4, t1, Seq::empty());
    lemma_count_one_line(l5, t1, Seq::empty());
    lemma_count_one_line(l6, t1, Seq::empty());
    lemma_count_one_line(l1, t2, Seq::empty());
    lemma_count_one_line(l2, t2, Seq::empty());
    lemma_count_one_line(l3, t2, Seq::empty());
    lemma_count_one_line(l4, t2, Seq::empty());
    lemma_count_one_line(l5, t2, Seq::empty());
    lemma_count_one_line(l6, t2, Seq::empty());
    assert(Seq::<char>::empty() + l1 =~= l1);
    assert(Seq::<char>::empty() + l2 =~= l2);
    assert(Seq::<char>::empty() + l3 =~= l3);
    assert(Seq::<char>::empty() + l4 =~= l4);
    assert(Seq::<char>::empty() + l5 =~= l5);
    assert(Seq::<char>::empty() + l6 =~= l6);
    assert(l2 != t1 && l2 != t2);
    assert(l5 != t1 && l5 != t2);
    assert(count_line(spec_event(s), t1) == 1);
    assert(count_line(spec_event(s), t2) == 1);
}

/// The concatenated event blocks hold one `BEGIN:VEVENT` line and one
/// `END:VEVENT` line per shift, and end with a newline when any shift
/// is there.
pub proof fn lemma_count_events(shifts: Seq<Shift>)
    ensures
        count_line(spec_events(shifts), "BEGIN:VEVENT"@) == shifts.len(),
        count_line(spec_events(shifts), "END:VEVENT"@) == shifts.len(),
        shifts.len() > 0 ==> spec_events(shifts).len() > 0 && spec_events(shifts).last() == '\n',
    decreases shifts.len(),
{
    let t1 = "BEGIN:VEVENT"@;
    let t2 = "END:VEVENT"@;
    if shifts.len() == 0 {
        assert(count_line(spec_events(shifts), t1) == 0);
        assert(count_line(spec_events(shifts), t2) == 0);
    } else {
        let head = spec_event(shifts[0]);
        let rest = spec_events(shifts.drop_first());
        lemma_count_event(shifts[0]);
        lemma_count_events(shifts.drop_first());
        lemma_count_split(head, rest, t1, Seq::empty());
        lemma_count_split(head, rest, t2, Seq::empty());
        assert(spec_events(shifts) == head + rest);
        if shifts.len() == 1 {
            assert(spec_events(shifts).last() == head.last());
        } else {
            assert(rest.len() > 0);
            assert(spec_events(shifts).last() == rest.last());
        }
    }
}

/// Every shift yields exactly one `BEGIN:VEVENT` line and one
/// `END:VEVENT` line in the finished document: the number of each
/// equals the number of shifts, for every input, the empty one too.
#[verifier::rlimit(100)]
pub proof fn lemma_event_count(shifts: Seq<Shift>)
    ensures
        count_line(spec_calendar(shifts), "BEGIN:VEVENT"@) == shifts.len(),
        count_line(spec_calendar(shifts), "END:VEVENT"@) == shifts.len(),
{
    reveal_strlit("BEGIN:VCALENDAR\nVERSION:2.0\n");
    reveal_strlit("BEGIN:VCALENDAR");
    reveal_strlit("VERSION:2.0");
    reveal_strlit("END:VCALENDAR\n");
    reveal_strlit("END:VCALENDAR");
    reveal_strlit("BEGIN:VEVENT");
    reveal_strlit("END:VEVENT");
    let t1 = "BEGIN:VEVENT"@;
    let t2 = "END:VEVENT"@;
    let nl = seq!['\n'];
    let hdr = "BEGIN:VCALENDAR\nVERSION:2.0\n"@;
    let ftr = "END:VCALENDAR\n"@;
    let h1 = "BEGIN:VCALENDAR"@;
    let h2 = "VERSION:2.0"@;
    let f1 = "END:VCALENDAR"@;
    let events = spec_events(shifts);
    lemma_count_events(shifts);
    assert(spec_calendar(shifts) =~= hdr + (events + ftr));
    assert(hdr.last() == '\n');
    lemma_count_split(hdr, events + ftr, t1, Seq::empty());
    lemma_count_split(hdr, events + ftr, t2, Seq::empty());
    assert(hdr =~= (h1 + nl) + (h2 + nl));
    assert(no_newline(h1) && no_newline(h2) && no_newline(f1));
    assert((h1 + nl).last() == '\n');
    lemma_count_split(h1 + nl, h2 + nl, t1, Seq::empty());
    lemma_count_split(h1 + nl, h2 + nl, t2, Seq::empty());
    lemma_count_one_line(h1, t1, Seq::empty());
    lemma_count_one_line(h1, t2, Seq::empty());
    lemma_count_one_line(h2, t1, Seq::empty());
    lemma_count_one_line(h2, t2, Seq::empty());
    assert(Seq::<char>::empty() + h1 =~= h1);
    assert(Seq::<char>::empty() + h2 =~= h2);
    assert(h1.len() == 15 && h2.len() == 11 && f1.len() == 13 && t1.len() == 12 && t2.len() == 10);
    assert(count_line(hdr, t1) == 0);
    assert(count_line(hdr, t2) == 0);
    assert(ftr =~= f1 + nl);
    lemma_count_one_line(f1, t1, Seq::empty());
    lemma_count_one_line(f1, t2, Seq::empty());
    assert(Seq::<char>::empty() + f1 =~= f1);
    assert(count_line(ftr, t1) == 0);
    assert(count_line(ftr, t2) == 0);
    if shifts.len() == 0 {
        assert(events + ftr =~= ftr);
    } else {
        lemma_count_split(events, ftr, t1, Seq::empty());
        lemma_count_split(events, ftr, t2, Seq::empty());
    }
}

/// Where the block of shift `k` begins in the document: right after
/// the header and the blocks of the shifts before it.
pub open spec fn event_offset(shifts: Seq<Shift>, k: int) -> int {
    "BEGIN:VCALENDAR\nVERSION:2.0\n"@.len() + spec_events(shifts.take(k)).len() as int
}

/// The block of shift `k` occupies the document exactly from
/// `event_offset(shifts, k)` to `event_offset(shifts, k + 1)`: blocks
/// stand in input order, back to back between header and footer.
#[verifier::rlimit(100)]
pub proof fn lemma_events_in_input_order(shifts: Seq<Shift>, k: int)
    requires
        0 <= k < shifts.len(),
    ensures
        spec_event(shifts[k]).len() > 0,
        event_offset(shifts, k + 1) == event_offset(shifts, k) + spec_event(shifts[k]).len(),
        "BEGIN:VCALENDAR\nVERSION:2.0\n"@.len() <= event_offset(shifts, k),
        event_offset(shifts, k + 1) + "END:VCALENDAR\n"@.len() <= spec_calendar(shifts).len(),
        spec_calendar(shifts).subrange(
            event_offset(shifts, k),
            event_offset(shifts, k) + spec_event(shifts[k]).len(),
        ) == spec_event(shifts[k]),
{
    let hdr = "BEGIN:VCALENDAR\nVERSION:2.0\n"@;
    let ftr = "END:VCALENDAR\n"@;
    let ev = spec_event(shifts[k]);
    let doc = spec_calendar(shifts);
    lemma_count_event(shifts[k]);
    assert(shifts.take(k).push(shifts[k]) =~= shifts.take(k + 1));
    lemma_events_snoc(shifts.take(k), shifts[k]);
    assert(shifts.take(k + 1) + shifts.skip(k + 1) =~= shifts);
    lemma_events_concat(shifts.take(k + 1), shifts.skip(k + 1));
    let before = spec_events(shifts.take(k));
    let after = spec_events(shifts.skip(k + 1));
    assert(spec_events(shifts) == (before + ev) + after);
    let off = event_offset(shifts, k);
    assert(doc == (hdr + spec_events(shifts)) + ftr);
    assert forall|i: int| 0 <= i < ev.len() implies doc[off + i] == ev[i] by {
        assert((hdr + spec_events(shifts))[off + i] == spec_events(shifts)[before.len() + i]);
        assert(spec_events(shifts)[before.len() + i] == ev[i]);
    }
    assert(doc.subrange(off, off + ev.len()) =~= ev);
}

/// Blocks of later shifts begin only after earlier blocks have ended:
/// the offsets increase with the input position.
pub proof fn lemma_event_offsets_increase(shifts: Seq<Shift>, i: int, j: int)
    requires
        0 <= i < j < shifts.len(),
    ensures
        event_offset(shifts, i) + spec_event(shifts[i]).len() <= event_offset(shifts, j),
    decreases j - i,
{
    lemma_events_in_input_order(shifts, i);
    if i + 1 < j {
        lemma_event_offsets_increase(shifts, i + 1, j);
        lemma_events_in_input_order(shifts, i + 1);
    }
}

} // verus!
