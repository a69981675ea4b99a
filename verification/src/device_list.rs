//! Parsing of the platform device listings.
//!
//! Running the listing tools is platform I/O done by the caller; their raw
//! text output is handed in and picked apart here. One family of listings is
//! the DirectShow device report an encoder prints on its diagnostic stream,
//! with a video section and an audio section, one quoted device name per
//! line. The other family is the video4linux device table and the ALSA
//! capture-device list. All parsing is best effort: a line that does not
//! look like a device is skipped, and an unusable listing yields an empty
//! directory, never an error.

use vstd::prelude::*;

use crate::scan::spec_find_char;
use crate::scan::spec_has_substring;
use crate::scan::spec_is_space;
use crate::scan::spec_lines;
use crate::scan::spec_match_at;
use crate::scan::spec_trim;
use crate::scan::spec_trim_end_char;
use crate::scan::find_char_from;
use crate::scan::has_substring;
use crate::scan::is_space_at;
use crate::scan::split_lines;
use crate::scan::starts_with;
use crate::scan::trim;
use crate::scan::trim_end_char;

verus! {

/// One camera or microphone: a display name and the identifier the capture
/// backend knows the device by. The controller forwards the identifier
/// opaquely and never checks that the device exists.
#[derive(Clone, Debug)]
pub struct Device {
    pub name: String,
    pub id: String,
}

/// Which section of a DirectShow listing is wanted.
#[derive(Clone, Copy, Debug, PartialEq, Eq, Structural)]
pub enum DeviceKind {
    Video,
    Audio,
}

/// The names of a sequence of devices.
pub open spec fn spec_device_names(ds: Seq<Device>) -> Seq<Seq<char>> {
    Seq::new(ds.len(), |i: int| ds[i].name@)
}

/// The text between the first two double quotes of a listing line, if the
/// line has two of them.
pub open spec fn spec_quoted_name(line: Seq<char>) -> Option<Seq<char>> {
    let q1 = spec_find_char(line, '"');
    if q1 >= line.len() {
        None
    } else {
        let rest = line.skip(q1 + 1 as int);
        let q2 = spec_find_char(rest, '"');
        if q2 >= rest.len() {
            None
        } else {
            Some(rest.take(q2 as int))
        }
    }
}

/// The non-empty quoted device names in the wanted section of a DirectShow
/// listing. A section-header line switches collection on when it announces
/// the wanted section and off when it announces the other one; every other
/// line contributes its quoted name while collection is on.
pub open spec fn spec_dshow_names(
    lines: Seq<Seq<char>>,
    kind: DeviceKind,
    in_section: bool,
) -> Seq<Seq<char>>
    decreases lines.len(),
{
    if lines.len() == 0 {
        seq![]
    } else {
        let line = lines[0];
        let rest = lines.drop_first();
        if spec_has_substring(line, "DirectShow video devices"@) {
            spec_dshow_names(rest, kind, kind is Video)
        } else if spec_has_substring(line, "DirectShow audio devices"@) {
            spec_dshow_names(rest, kind, kind is Audio)
        } else if in_section {
            match spec_quoted_name(line) {
                Some(name) => {
                    if name.len() > 0 {
                        seq![name] + spec_dshow_names(rest, kind, in_section)
                    } else {
                        spec_dshow_names(rest, kind, in_section)
                    }
                },
                None => spec_dshow_names(rest, kind, in_section),
            }
        } else {
            spec_dshow_names(rest, kind, in_section)
        }
    }
}

/// The text between the first two double quotes of a listing line.
pub(crate) fn quoted_name(line: &str) -> (r: Option<String>)
    ensures
        r is Some <==> spec_quoted_name(line@) is Some,
        r matches Some(s) ==> spec_quoted_name(line@) == Some(s@),
{
    let len = line.unicode_len();
    proof {
        assert(line@.skip(0) =~= line@);
    }
    let q1 = find_char_from(line, 0, '"');
    if q1 == len {
        return None;
    }
    let q2 = find_char_from(line, q1 + 1, '"');
    if q2 == len {
        proof {
            let rest = line@.skip(q1 + 1);
            assert(spec_find_char(rest, '"') >= rest.len());
        }
        return None;
    }
    let name = line.substring_char(q1 + 1, q2).to_owned();
    proof {
        let rest = line@.skip(q1 + 1);
        assert(spec_find_char(rest, '"') == q2 - q1 - 1);
        assert(rest.take(q2 - q1 - 1) =~= line@.subrange(q1 + 1, q2 as int));
    }
    Some(name)
}

/// Collects the devices of the wanted section of a DirectShow listing. The
/// display name doubles as the identifier: that is how DirectShow devices are
/// addressed.
fn parse_dshow_listing(listing: &str, kind: DeviceKind) -> (r: Vec<Device>)
    ensures
        ({
            let names = spec_dshow_names(spec_lines(listing@), kind, false);
            &&& r@.len() == names.len()
            &&& forall|i: int|
                0 <= i < names.len() ==> (#[trigger] r@[i]).name@ == names[i] && r@[i].id@
                    == names[i]
        }),
{
    let lines = split_lines(listing);
    let mut devices: Vec<Device> = Vec::new();
    let mut in_section: bool = false;
    let mut i: usize = 0;
    proof {
        assert(lines.deep_view().skip(0) =~= lines.deep_view());
        assert(spec_device_names(devices@) =~= Seq::<Seq<char>>::empty());
    }
    while i < lines.len()
        invariant
            i <= lines@.len(),
            lines.deep_view() == spec_lines(listing@),
            spec_dshow_names(spec_lines(listing@), kind, false) == spec_device_names(devices@)
                + spec_dshow_names(lines.deep_view().skip(i as int), kind, in_section),
            forall|j: int| 0 <= j < devices@.len() ==> (#[trigger] devices@[j]).id@ == devices@[j].name@,
        decreases lines@.len() - i,
    {
        let ghost suffix = lines.deep_view().skip(i as int);
        let ghost prev_names = spec_device_names(devices@);
        proof {
            assert(suffix.len() > 0);
            assert(suffix[0] == lines@[i as int]@);
            assert(suffix.drop_first() =~= lines.deep_view().skip(i as int + 1));
        }
        let line = &lines[i];
        if has_substring(line.as_str(), "DirectShow video devices") {
            in_section = matches!(kind, DeviceKind::Video);
        } else if has_substring(line.as_str(), "DirectShow audio devices") {
            in_section = matches!(kind, DeviceKind::Audio);
        } else if in_section {
            match quoted_name(line.as_str()) {
                Some(name) => {
                    if name.unicode_len() > 0 {
                        let id = name.clone();
                        devices.push(Device { name, id });
                        proof {
                            assert(spec_device_names(devices@) =~= prev_names + seq![
                                devices@[devices@.len() - 1].name@,
                            ]);
                        }
                    }
                },
                None => {},
            }
        }
        i = i + 1;
    }
    proof {
        assert(lines.deep_view().skip(i as int) =~= Seq::<Seq<char>>::empty());
        assert(spec_dshow_names(lines.deep_view().skip(i as int), kind, in_section) =~= Seq::<
            Seq<char>,
        >::empty());
        assert(spec_device_names(devices@) + Seq::<Seq<char>>::empty() =~= spec_device_names(
            devices@,
        ));
    }
    devices
}

/// The cameras named in the video section of a DirectShow device listing.
pub fn get_video_devices(listing: &str) -> (r: Vec<Device>)
    ensures
        ({
            let names = spec_dshow_names(spec_lines(listing@), DeviceKind::Video, false);
            &&& r@.len() == names.len()
            &&& forall|i: int|
                0 <= i < names.len() ==> (#[trigger] r@[i]).name@ == names[i] && r@[i].id@
                    == names[i]
        }),
{
    parse_dshow_listing(listing, DeviceKind::Video)
}

/// The microphones named in the audio section of a DirectShow device listing.
pub fn get_audio_devices(listing: &str) -> (r: Vec<Device>)
    ensures
        ({
            let names = spec_dshow_names(spec_lines(listing@), DeviceKind::Audio, false);
            &&& r@.len() == names.len()
            &&& forall|i: int|
                0 <= i < names.len() ==> (#[trigger] r@[i]).name@ == names[i] && r@[i].id@
                    == names[i]
        }),
{
    parse_dshow_listing(listing, DeviceKind::Audio)
}

} // verus!

verus! {

/// The (name, identifier) pairs of a sequence of devices.
pub open spec fn spec_device_entries(ds: Seq<Device>) -> Seq<(Seq<char>, Seq<char>)> {
    Seq::new(ds.len(), |i: int| (ds[i].name@, ds[i].id@))
}

/// Lexicographic order on identifiers, by character code point: the order the
/// device directory is presented in, so it stays put across refreshes.
pub open spec fn spec_lex_le(a: Seq<char>, b: Seq<char>) -> bool
    decreases a.len(),
{
    if a.len() == 0 {
        true
    } else if b.len() == 0 {
        false
    } else if (a[0] as u32) < (b[0] as u32) {
        true
    } else if (a[0] as u32) > (b[0] as u32) {
        false
    } else {
        spec_lex_le(a.drop_first(), b.drop_first())
    }
}

/// Whether `a` sorts at or before `b` in identifier order.
fn lex_le(a: &str, b: &str) -> (r: bool)
    ensures
        r == spec_lex_le(a@, b@),
{
    let alen = a.unicode_len();
    let blen = b.unicode_len();
    let mut i: usize = 0;
    proof {
        assert(a@.skip(0) =~= a@);
        assert(b@.skip(0) =~= b@);
    }
    while i < alen && i < blen
        invariant
            i <= alen,
            i <= blen,
            alen == a@.len(),
            blen == b@.len(),
            spec_lex_le(a@, b@) == spec_lex_le(a@.skip(i as int), b@.skip(i as int)),
        decreases alen - i,
    {
        let ca = a.get_char(i);
        let cb = b.get_char(i);
        if (ca as u32) < (cb as u32) {
            return true;
        }
        if (ca as u32) > (cb as u32) {
            return false;
        }
        proof {
            assert(a@.skip(i as int).drop_first() =~= a@.skip(i as int + 1));
            assert(b@.skip(i as int).drop_first() =~= b@.skip(i as int + 1));
        }
        i = i + 1;
    }
    proof {
        if i == alen {
            assert(a@.skip(i as int).len() == 0);
        } else {
            assert(b@.skip(i as int).len() == 0);
            assert(a@.skip(i as int).len() > 0);
        }
    }
    i == alen
}

/// A pair inserted into a run sorted by identifier, before the first entry it
/// sorts at or before.
pub open spec fn spec_insert_pair(
    sorted: Seq<(Seq<char>, Seq<char>)>,
    p: (Seq<char>, Seq<char>),
) -> Seq<(Seq<char>, Seq<char>)>
    decreases sorted.len(),
{
    if sorted.len() == 0 {
        seq![p]
    } else if spec_lex_le(p.1, sorted[0].1) {
        seq![p] + sorted
    } else {
        seq![sorted[0]] + spec_insert_pair(sorted.drop_first(), p)
    }
}

/// The run sorted by identifier: each entry inserted in turn into the sorted
/// run of the entries after it.
pub open spec fn spec_sort_pairs(entries: Seq<(Seq<char>, Seq<char>)>) -> Seq<
    (Seq<char>, Seq<char>),
>
    decreases entries.len(),
{
    if entries.len() == 0 {
        seq![]
    } else {
        spec_insert_pair(spec_sort_pairs(entries.drop_first()), entries[0])
    }
}

/// Whether the entries stand in identifier order.
pub open spec fn spec_sorted_by_id(entries: Seq<(Seq<char>, Seq<char>)>) -> bool {
    forall|i: int, j: int|
        0 <= i <= j < entries.len() ==> spec_lex_le(
            (#[trigger] entries[i]).1,
            (#[trigger] entries[j]).1,
        )
}

/// Identifier order is total: of any two identifiers, one sorts at or before
/// the other.
proof fn lemma_lex_le_total(a: Seq<char>, b: Seq<char>)
    ensures
        spec_lex_le(a, b) || spec_lex_le(b, a),
    decreases a.len(),
{
    if a.len() > 0 && b.len() > 0 && (a[0] as u32) == (b[0] as u32) {
        lemma_lex_le_total(a.drop_first(), b.drop_first());
    }
}

/// Every identifier sorts at or before itself.
proof fn lemma_lex_le_refl(a: Seq<char>)
    ensures
        spec_lex_le(a, a),
    decreases a.len(),
{
    if a.len() > 0 {
        lemma_lex_le_refl(a.drop_first());
    }
}

/// Identifier order is transitive.
proof fn lemma_lex_le_trans(a: Seq<char>, b: Seq<char>, c: Seq<char>)
    requires
        spec_lex_le(a, b),
        spec_lex_le(b, c),
    ensures
        spec_lex_le(a, c),
    decreases a.len(),
{
    if a.len() > 0 && b.len() > 0 && c.len() > 0 && (a[0] as u32) == (b[0] as u32) && (b[0] as u32)
        == (c[0] as u32) {
        lemma_lex_le_trans(a.drop_first(), b.drop_first(), c.drop_first());
    }
}

/// Inserting into a run in identifier order keeps it in identifier order,
/// adds exactly the inserted entry, and invents no entry.
proof fn lemma_insert_pair_sorted(sorted: Seq<(Seq<char>, Seq<char>)>, p: (Seq<char>, Seq<char>))
    requires
        spec_sorted_by_id(sorted),
    ensures
        spec_sorted_by_id(spec_insert_pair(sorted, p)),
        spec_insert_pair(sorted, p).to_multiset() == sorted.to_multiset().insert(p),
        forall|m: int|
            0 <= m < spec_insert_pair(sorted, p).len() ==> (#[trigger] spec_insert_pair(sorted, p)[m]
                == p || sorted.contains(spec_insert_pair(sorted, p)[m])),
    decreases sorted.len(),
{
    broadcast use vstd::seq_lib::group_to_multiset_ensures;

    let out = spec_insert_pair(sorted, p);
    if sorted.len() == 0 {
        assert(out =~= sorted.insert(0, p));
        lemma_lex_le_refl(p.1);
    } else if spec_lex_le(p.1, sorted[0].1) {
        assert(out =~= sorted.insert(0, p));
        assert forall|i: int, j: int| 0 <= i <= j < out.len() implies spec_lex_le(
            (#[trigger] out[i]).1,
            (#[trigger] out[j]).1,
        ) by {
            if i == 0 && j == 0 {
                lemma_lex_le_refl(p.1);
            } else if i == 0 && j > 0 {
                assert(out[j] == sorted[j - 1]);
                assert(spec_lex_le(sorted[0].1, sorted[j - 1].1));
                lemma_lex_le_trans(p.1, sorted[0].1, sorted[j - 1].1);
            } else if i > 0 {
                assert(out[i] == sorted[i - 1]);
                assert(out[j] == sorted[j - 1]);
            }
        }
    } else {
        let rest = sorted.drop_first();
        assert forall|i: int, j: int| 0 <= i <= j < rest.len() implies spec_lex_le(
            (#[trigger] rest[i]).1,
            (#[trigger] rest[j]).1,
        ) by {
            assert(rest[i] == sorted[i + 1]);
            assert(rest[j] == sorted[j + 1]);
        }
        lemma_insert_pair_sorted(rest, p);
        lemma_lex_le_total(p.1, sorted[0].1);
        let ins = spec_insert_pair(rest, p);
        assert(out =~= ins.insert(0, sorted[0]));
        assert(sorted =~= rest.insert(0, sorted[0]));
        assert(out.to_multiset() =~= sorted.to_multiset().insert(p)) by {
            assert(out.to_multiset() == ins.to_multiset().insert(sorted[0]));
            assert(sorted.to_multiset() == rest.to_multiset().insert(sorted[0]));
        }
        assert forall|m: int| 0 <= m < out.len() implies (#[trigger] out[m] == p
            || sorted.contains(out[m])) by {
            if m == 0 {
                assert(sorted[0] == out[0]);
                assert(sorted.contains(out[0]));
            } else {
                assert(out[m] == ins[m - 1]);
                if ins[m - 1] != p {
                    let w = choose|w: int| 0 <= w < rest.len() && rest[w] == ins[m - 1];
                    assert(sorted[w + 1] == ins[m - 1]);
                    assert(sorted.contains(out[m]));
                }
            }
        }
        assert forall|i: int, j: int| 0 <= i <= j < out.len() implies spec_lex_le(
            (#[trigger] out[i]).1,
            (#[trigger] out[j]).1,
        ) by {
            if i == 0 && j == 0 {
                lemma_lex_le_refl(sorted[0].1);
            } else if i == 0 && j > 0 {
                if out[j] == p {
                    assert(spec_lex_le(sorted[0].1, p.1));
                } else {
                    let w = choose|w: int| 0 <= w < sorted.len() && sorted[w] == out[j];
                    assert(spec_lex_le(sorted[0].1, sorted[w].1));
                }
            } else if i > 0 {
                assert(out[i] == ins[i - 1]);
                assert(out[j] == ins[j - 1]);
            }
        }
    }
}

/// Law: sorting the device directory really sorts it. The sorted directory is
/// in identifier order, and it is a permutation of the parsed one: no entry
/// is lost, invented, or duplicated.
pub proof fn lemma_sort_pairs_is_sorted_permutation(entries: Seq<(Seq<char>, Seq<char>)>)
    ensures
        spec_sorted_by_id(spec_sort_pairs(entries)),
        spec_sort_pairs(entries).to_multiset() == entries.to_multiset(),
    decreases entries.len(),
{
    broadcast use vstd::seq_lib::group_to_multiset_ensures;

    if entries.len() > 0 {
        let rest = entries.drop_first();
        lemma_sort_pairs_is_sorted_permutation(rest);
        lemma_insert_pair_sorted(spec_sort_pairs(rest), entries[0]);
        assert(entries =~= rest.insert(0, entries[0]));
        assert(entries.to_multiset() == rest.to_multiset().insert(entries[0]));
    }
}

/// Inserting at the position scanned for — everything before sorts strictly
/// earlier, the entry there does not — is what `spec_insert_pair` does.
proof fn lemma_insert_pair_at(
    sorted: Seq<(Seq<char>, Seq<char>)>,
    p: (Seq<char>, Seq<char>),
    k: int,
)
    requires
        0 <= k <= sorted.len(),
        forall|j: int| 0 <= j < k ==> !spec_lex_le(p.1, (#[trigger] sorted[j]).1),
        k < sorted.len() ==> spec_lex_le(p.1, sorted[k].1),
    ensures
        spec_insert_pair(sorted, p) == sorted.insert(k, p),
    decreases sorted.len(),
{
    if sorted.len() == 0 {
        assert(sorted.insert(0, p) =~= seq![p]);
    } else if k == 0 {
        assert(sorted.insert(0, p) =~= seq![p] + sorted);
    } else {
        assert forall|j: int| 0 <= j < k - 1 implies !spec_lex_le(
            p.1,
            (#[trigger] sorted.drop_first()[j]).1,
        ) by {
            assert(sorted.drop_first()[j] == sorted[j + 1]);
        }
        lemma_insert_pair_at(sorted.drop_first(), p, k - 1);
        assert(sorted.insert(k, p) =~= seq![sorted[0]] + sorted.drop_first().insert(k - 1, p));
    }
}

/// Inserts `d` into a directory sorted by identifier, keeping it sorted.
fn insert_by_id(sorted: &mut Vec<Device>, d: Device)
    ensures
        spec_device_entries(final(sorted)@) == spec_insert_pair(
            spec_device_entries(old(sorted)@),
            (d.name@, d.id@),
        ),
{
    let mut k: usize = 0;
    while k < sorted.len() && !lex_le(d.id.as_str(), sorted[k].id.as_str())
        invariant
            k <= sorted@.len(),
            *sorted == *old(sorted),
            forall|j: int| 0 <= j < k ==> !spec_lex_le(d.id@, (#[trigger] sorted@[j]).id@),
        decreases sorted@.len() - k,
    {
        k = k + 1;
    }
    proof {
        let pairs = spec_device_entries(sorted@);
        assert forall|j: int| 0 <= j < k implies !spec_lex_le(
            (d.name@, d.id@).1,
            (#[trigger] pairs[j]).1,
        ) by {
            assert(pairs[j].1 == sorted@[j].id@);
        }
        lemma_insert_pair_at(pairs, (d.name@, d.id@), k as int);
    }
    let ghost pre = sorted@;
    sorted.insert(k, d);
    proof {
        assert(spec_device_entries(sorted@) =~= spec_device_entries(pre).insert(
            k as int,
            (d.name@, d.id@),
        ));
    }
}

/// Sorts a device directory by identifier.
fn sort_by_id(input: Vec<Device>) -> (r: Vec<Device>)
    ensures
        spec_device_entries(r@) == spec_sort_pairs(spec_device_entries(input@)),
{
    let ghost orig = input@;
    let ghost pairs = spec_device_entries(orig);
    let mut rest = input;
    let mut out: Vec<Device> = Vec::new();
    proof {
        assert(orig.take(orig.len() as int) =~= orig);
        assert(spec_device_entries(orig.skip(orig.len() as int)) =~= pairs.skip(
            orig.len() as int,
        ));
        assert(spec_device_entries(out@) =~= Seq::<(Seq<char>, Seq<char>)>::empty());
        assert(pairs.skip(orig.len() as int).len() == 0);
    }
    while rest.len() > 0
        invariant
            rest@.len() <= orig.len(),
            rest@ == orig.take(rest@.len() as int),
            pairs == spec_device_entries(orig),
            spec_device_entries(out@) == spec_sort_pairs(pairs.skip(rest@.len() as int)),
        decreases rest@.len(),
    {
        let ghost n: int = rest@.len() as int - 1;
        let d = rest.pop().unwrap();
        proof {
            assert(d == orig.take(n + 1).last());
            assert(orig.take(n + 1).last() == orig[n]);
            assert(rest@ =~= orig.take(n));
            assert(pairs.skip(n).drop_first() =~= pairs.skip(n + 1));
            assert(pairs.skip(n)[0] == (orig[n].name@, orig[n].id@));
            assert(spec_sort_pairs(pairs.skip(n)) == spec_insert_pair(
                spec_sort_pairs(pairs.skip(n + 1)),
                (orig[n].name@, orig[n].id@),
            ));
        }
        insert_by_id(&mut out, d);
    }
    proof {
        assert(pairs.skip(0) =~= pairs);
    }
    out
}

/// The devices of a video4linux listing. A flush-left line names a card and
/// becomes the current name, its trailing colons dropped; an indented line
/// whose trimmed text is a `/dev/video` path is one capture node of that
/// card, shown as `NAME (PATH)` and addressed by the path; the name is spent
/// on the first node so that further nodes of the same card are not
/// mislabelled.
pub open spec fn spec_v4l2_entries(lines: Seq<Seq<char>>, current: Seq<char>) -> Seq<
    (Seq<char>, Seq<char>),
>
    decreases lines.len(),
{
    if lines.len() == 0 {
        seq![]
    } else {
        let line = lines[0];
        let rest = lines.drop_first();
        if line.len() > 0 && !spec_is_space(line[0]) {
            spec_v4l2_entries(rest, spec_trim_end_char(line, ':'))
        } else {
            let path = spec_trim(line);
            if spec_match_at(path, "/dev/video"@, 0) {
                seq![(current + " ("@ + path + ")"@, path)] + spec_v4l2_entries(
                    rest,
                    Seq::<char>::empty(),
                )
            } else {
                spec_v4l2_entries(rest, current)
            }
        }
    }
}

/// Collects the capture nodes of a video4linux listing.
fn parse_v4l2_listing(listing: &str) -> (r: Vec<Device>)
    ensures
        spec_device_entries(r@) == spec_v4l2_entries(spec_lines(listing@), Seq::<char>::empty()),
{
    let lines = split_lines(listing);
    let mut devices: Vec<Device> = Vec::new();
    let mut current: String = String::new();
    let mut i: usize = 0;
    proof {
        assert(lines.deep_view().skip(0) =~= lines.deep_view());
        assert(spec_device_entries(devices@) =~= Seq::<(Seq<char>, Seq<char>)>::empty());
    }
    while i < lines.len()
        invariant
            i <= lines@.len(),
            lines.deep_view() == spec_lines(listing@),
            spec_v4l2_entries(spec_lines(listing@), Seq::<char>::empty()) == spec_device_entries(
                devices@,
            ) + spec_v4l2_entries(lines.deep_view().skip(i as int), current@),
        decreases lines@.len() - i,
    {
        let ghost suffix = lines.deep_view().skip(i as int);
        let ghost prev = spec_device_entries(devices@);
        proof {
            assert(suffix.len() > 0);
            assert(suffix[0] == lines@[i as int]@);
            assert(suffix.drop_first() =~= lines.deep_view().skip(i as int + 1));
        }
        let line = &lines[i];
        let llen = line.as_str().unicode_len();
        if llen > 0 && !is_space_at(line.as_str(), 0) {
            current = trim_end_char(line.as_str(), ':').to_owned();
        } else {
            let path = trim(line.as_str());
            if starts_with(path, "/dev/video") {
                let id = path.to_owned();
                let mut name = current.clone();
                name.append(" (");
                name.append(path);
                name.append(")");
                devices.push(Device { name, id });
                current = String::new();
                proof {
                    assert(spec_device_entries(devices@) =~= prev + seq![
                        (
                            devices@[devices@.len() - 1].name@,
                            devices@[devices@.len() - 1].id@,
                        ),
                    ]);
                }
            }
        }
        i = i + 1;
    }
    proof {
        assert(lines.deep_view().skip(i as int) =~= Seq::<Seq<char>>::empty());
        assert(spec_v4l2_entries(lines.deep_view().skip(i as int), current@) =~= Seq::<
            (Seq<char>, Seq<char>),
        >::empty());
        assert(spec_device_entries(devices@) + Seq::<(Seq<char>, Seq<char>)>::empty()
            =~= spec_device_entries(devices@));
    }
    devices
}

/// The fallback capture nodes taken straight from the names of the device
/// directory entries: every entry named `videoN` becomes `/dev/videoN`, shown
/// and addressed by that path.
pub open spec fn spec_fallback_entries(names: Seq<Seq<char>>) -> Seq<(Seq<char>, Seq<char>)>
    decreases names.len(),
{
    if names.len() == 0 {
        seq![]
    } else {
        let rest = names.drop_first();
        if spec_match_at(names[0], "video"@, 0) {
            seq![("/dev/"@ + names[0], "/dev/"@ + names[0])] + spec_fallback_entries(rest)
        } else {
            spec_fallback_entries(rest)
        }
    }
}

/// Builds the fallback capture nodes from raw device-directory entry names.
fn fallback_video_devices(entries: &Vec<String>) -> (r: Vec<Device>)
    ensures
        spec_device_entries(r@) == spec_fallback_entries(entries.deep_view()),
{
    let mut devices: Vec<Device> = Vec::new();
    let mut i: usize = 0;
    proof {
        assert(entries.deep_view().skip(0) =~= entries.deep_view());
        assert(spec_device_entries(devices@) =~= Seq::<(Seq<char>, Seq<char>)>::empty());
    }
    while i < entries.len()
        invariant
            i <= entries@.len(),
            spec_fallback_entries(entries.deep_view()) == spec_device_entries(devices@)
                + spec_fallback_entries(entries.deep_view().skip(i as int)),
        decreases entries@.len() - i,
    {
        let ghost suffix = entries.deep_view().skip(i as int);
        let ghost prev = spec_device_entries(devices@);
        proof {
            assert(suffix.len() > 0);
            assert(suffix[0] == entries@[i as int]@);
            assert(suffix.drop_first() =~= entries.deep_view().skip(i as int + 1));
        }
        let entry = &entries[i];
        if starts_with(entry.as_str(), "video") {
            let mut path = "/dev/".to_owned();
            path.append(entry.as_str());
            let id = path.clone();
            devices.push(Device { name: path, id });
            proof {
                assert(spec_device_entries(devices@) =~= prev + seq![
                    (
                        devices@[devices@.len() - 1].name@,
                        devices@[devices@.len() - 1].id@,
                    ),
                ]);
            }
        }
        i = i + 1;
    }
    proof {
        assert(entries.deep_view().skip(i as int) =~= Seq::<Seq<char>>::empty());
        assert(spec_fallback_entries(entries.deep_view().skip(i as int)) =~= Seq::<
            (Seq<char>, Seq<char>),
        >::empty());
        assert(spec_device_entries(devices@) + Seq::<(Seq<char>, Seq<char>)>::empty()
            =~= spec_device_entries(devices@));
    }
    devices
}

/// The cameras of a video4linux platform, sorted by device path.
///
/// The listing tool's output is parsed first; when it names no capture node
/// at all, the raw device-directory entry names stand in. Either way the
/// directory comes out sorted by identifier, for a stable presentation.
pub fn v4l2_video_devices(listing: &str, fallback_entries: &Vec<String>) -> (r: Vec<Device>)
    ensures
        ({
            let parsed = spec_v4l2_entries(spec_lines(listing@), Seq::<char>::empty());
            let chosen = if parsed.len() > 0 {
                parsed
            } else {
                spec_fallback_entries(fallback_entries.deep_view())
            };
            spec_device_entries(r@) == spec_sort_pairs(chosen)
        }),
{
    let parsed = parse_v4l2_listing(listing);
    let chosen = if parsed.len() > 0 {
        parsed
    } else {
        fallback_video_devices(fallback_entries)
    };
    sort_by_id(chosen)
}

/// The identifiers of an ALSA capture-device listing: every flush-left,
/// non-empty line is one device identifier, trimmed, except the null device.
pub open spec fn spec_arecord_ids(lines: Seq<Seq<char>>) -> Seq<Seq<char>>
    decreases lines.len(),
{
    if lines.len() == 0 {
        seq![]
    } else {
        let line = lines[0];
        let rest = lines.drop_first();
        if line.len() > 0 && !spec_is_space(line[0]) {
            let id = spec_trim(line);
            if id == "null"@ {
                spec_arecord_ids(rest)
            } else {
                seq![id] + spec_arecord_ids(rest)
            }
        } else {
            spec_arecord_ids(rest)
        }
    }
}

/// Collects the identifiers of an ALSA capture-device listing.
fn parse_arecord_ids(listing: &str) -> (r: Vec<String>)
    ensures
        r.deep_view() == spec_arecord_ids(spec_lines(listing@)),
{
    let lines = split_lines(listing);
    let mut ids: Vec<String> = Vec::new();
    let mut i: usize = 0;
    proof {
        assert(lines.deep_view().skip(0) =~= lines.deep_view());
        assert(ids.deep_view() =~= Seq::<Seq<char>>::empty());
    }
    while i < lines.len()
        invariant
            i <= lines@.len(),
            lines.deep_view() == spec_lines(listing@),
            spec_arecord_ids(spec_lines(listing@)) == ids.deep_view() + spec_arecord_ids(
                lines.deep_view().skip(i as int),
            ),
        decreases lines@.len() - i,
    {
        let ghost suffix = lines.deep_view().skip(i as int);
        let ghost prev = ids.deep_view();
        proof {
            assert(suffix.len() > 0);
            assert(suffix[0] == lines@[i as int]@);
            assert(suffix.drop_first() =~= lines.deep_view().skip(i as int + 1));
        }
        let line = &lines[i];
        let llen = line.as_str().unicode_len();
        if llen > 0 && !is_space_at(line.as_str(), 0) {
            let id = trim(line.as_str()).to_owned();
            if !(id == "null".to_owned()) {
                ids.push(id);
                proof {
                    assert(ids.deep_view() =~= prev + seq![ids@[ids@.len() - 1]@]);
                }
            }
        }
        i = i + 1;
    }
    proof {
        assert(lines.deep_view().skip(i as int) =~= Seq::<Seq<char>>::empty());
        assert(spec_arecord_ids(lines.deep_view().skip(i as int)) =~= Seq::<Seq<char>>::empty());
        assert(ids.deep_view() + Seq::<Seq<char>>::empty() =~= ids.deep_view());
    }
    ids
}

/// The microphones of an ALSA platform: the safe platform default first, then
/// every capture device the listing names, each shown by its identifier.
pub fn alsa_audio_devices(listing: &str) -> (r: Vec<Device>)
    ensures
        ({
            let ids = spec_arecord_ids(spec_lines(listing@));
            &&& r@.len() == ids.len() + 1
            &&& r@[0].name@ == "Default"@
            &&& r@[0].id@ == "default"@
            &&& forall|i: int|
                1 <= i < r@.len() ==> (#[trigger] r@[i]).name@ == ids[i - 1] && r@[i].id@ == ids[i
                    - 1]
        }),
{
    let ids = parse_arecord_ids(listing);
    let mut devices: Vec<Device> = Vec::new();
    devices.push(Device { name: "Default".to_owned(), id: "default".to_owned() });
    let mut i: usize = 0;
    while i < ids.len()
        invariant
            i <= ids@.len(),
            ids.deep_view() == spec_arecord_ids(spec_lines(listing@)),
            devices@.len() == i + 1,
            devices@[0].name@ == "Default"@,
            devices@[0].id@ == "default"@,
            forall|j: int|
                1 <= j < devices@.len() ==> (#[trigger] devices@[j]).name@ == ids.deep_view()[j - 1]
                    && devices@[j].id@ == ids.deep_view()[j - 1],
        decreases ids@.len() - i,
    {
        let name = ids[i].clone();
        let id = ids[i].clone();
        devices.push(Device { name, id });
        i = i + 1;
    }
    devices
}

} // verus!
