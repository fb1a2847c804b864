//! Device enumeration output, device selection and its outcome.
use vstd::prelude::*;

use crate::error::AdbError;
use crate::text::{chars_of, line_spans, lines_of, span_equals, spans_view, word_spans, words_of};

verus! {

/// The target of a command: one device, or every attached device in
/// enumeration order.
#[derive(Debug, Clone)]
pub enum DeviceSelection {
    Single(String),
    All(Vec<String>),
}

/// The texts of a sequence of strings.
pub open spec fn ids_view(v: Seq<String>) -> Seq<Seq<char>> {
    v.map_values(|d: String| d@)
}

impl DeviceSelection {
    /// The devices a command under this selection runs on, in order.
    pub open spec fn targets(&self) -> Seq<Seq<char>> {
        match self {
            DeviceSelection::Single(d) => seq![d@],
            DeviceSelection::All(ds) => ids_view(ds@),
        }
    }
}

/// The status word of a usable device.
pub open spec fn ready_status() -> Seq<char> {
    seq!['d', 'e', 'v', 'i', 'c', 'e']
}

/// The identifier on a device line whose status is exactly `device`.
pub open spec fn ready_id(line: Seq<char>) -> Option<Seq<char>> {
    let w = words_of(line);
    if w.len() >= 2 && w[1] == ready_status() {
        Some(w[0])
    } else {
        None
    }
}

/// The identifiers of the usable devices among `lines`, in order.
pub open spec fn ready_ids(lines: Seq<Seq<char>>) -> Seq<Seq<char>>
    decreases lines.len(),
{
    if lines.len() == 0 {
        Seq::empty()
    } else {
        let rest = ready_ids(lines.drop_last());
        match ready_id(lines.last()) {
            Some(id) => rest.push(id),
            None => rest,
        }
    }
}

/// The usable devices of a device listing: every line after the header.
pub open spec fn listed_devices(output: Seq<char>) -> Seq<Seq<char>> {
    let lines = lines_of(output);
    if lines.len() == 0 {
        Seq::empty()
    } else {
        ready_ids(lines.drop_first())
    }
}

/// Pushing a string pushes its text.
pub proof fn lemma_ids_push(v: Seq<String>, s: String)
    ensures
        ids_view(v.push(s)) == ids_view(v).push(s@),
{
    assert(ids_view(v.push(s)) =~= ids_view(v).push(s@));
}

/// The identifiers of the devices whose status is `device`, in listing
/// order; the first line is a header and never yields a device.
pub fn parse_devices_output(output: &str) -> (r: Result<Vec<String>, AdbError>)
    ensures
        r is Ok,
        ids_view(r->Ok_0@) == listed_devices(output@),
{
    let cs = chars_of(output);
    let lines = line_spans(&cs);
    let status: Vec<char> = vec!['d', 'e', 'v', 'i', 'c', 'e'];
    let mut ids: Vec<String> = Vec::new();
    if lines.len() == 0 {
        assert(ids_view(ids@) =~= Seq::<Seq<char>>::empty());
        return Ok(ids);
    }
    let ghost all = lines_of(cs@);
    assert(all.subrange(1, 1) =~= Seq::<Seq<char>>::empty());
    assert(ids_view(ids@) =~= Seq::<Seq<char>>::empty());
    let mut k: usize = 1;
    while k < lines.len()
        invariant
            1 <= k <= lines@.len(),
            all == lines_of(cs@),
            all == spans_view(cs@, lines@),
            cs@ == output@,
            status@ == ready_status(),
            forall|j: int| 0 <= j < lines@.len() ==> 0 <= #[trigger] lines@[j].0 <= lines@[j].1 <= cs@.len(),
            ids_view(ids@) == ready_ids(all.subrange(1, k as int)),
        decreases lines.len() - k,
    {
        let (a, b) = lines[k];
        let ws = word_spans(&cs, a, b);
        let ghost line = cs@.subrange(a as int, b as int);
        assert(all[k as int] == line);
        assert(all.subrange(1, k + 1).drop_last() =~= all.subrange(1, k as int));
        assert(all.subrange(1, k + 1).last() == line);
        let ghost w = words_of(line);
        assert(w == spans_view(cs@, ws@));
        if ws.len() >= 2 && span_equals(&cs, ws[1].0, ws[1].1, &status) {
            assert(w[1] == cs@.subrange(ws@[1].0 as int, ws@[1].1 as int));
            let id = output.substring_char(ws[0].0, ws[0].1).to_string();
            assert(w[0] == id@);
            proof {
                lemma_ids_push(ids@, id);
            }
            ids.push(id);
        } else {
            assert(ws@.len() >= 2 ==> w[1] == cs@.subrange(ws@[1].0 as int, ws@[1].1 as int));
        }
        k = k + 1;
    }
    assert(all.subrange(1, all.len() as int) =~= all.drop_first());
    Ok(ids)
}

/// The text of the extra choice that selects every device.
pub open spec fn all_choice() -> Seq<char> {
    seq!['A', 'L', 'L']
}

/// The choices shown by the interactive chooser: each device, then `ALL`
/// where a command may run on every device.
pub open spec fn prompt_choices(devices: Seq<Seq<char>>, allow_all: bool) -> Seq<Seq<char>> {
    if allow_all {
        devices.push(all_choice())
    } else {
        devices
    }
}

fn copy_ids(devices: &[String]) -> (r: Vec<String>)
    ensures
        ids_view(r@) == ids_view(devices@),
{
    let mut r: Vec<String> = Vec::new();
    let mut k: usize = 0;
    while k < devices.len()
        invariant
            k <= devices@.len(),
            ids_view(r@) == ids_view(devices@.subrange(0, k as int)),
        decreases devices.len() - k,
    {
        let d = devices[k].clone();
        proof {
            lemma_ids_push(r@, d);
            assert(devices@.subrange(0, k + 1) =~= devices@.subrange(0, k as int).push(
                devices@[k as int],
            ));
        }
        r.push(d);
        k = k + 1;
    }
    assert(devices@.subrange(0, k as int) =~= devices@);
    r
}

/// The choices to offer the user, or `None` where no choice is needed:
/// with no device or a single one the chooser is never shown.
pub fn selection_prompt(devices: &[String], allow_all: bool) -> (r: Option<Vec<String>>)
    ensures
        devices@.len() < 2 ==> r is None,
        devices@.len() >= 2 ==> r is Some && ids_view(r->Some_0@) == prompt_choices(
            ids_view(devices@),
            allow_all,
        ),
{
    if devices.len() < 2 {
        return None;
    }
    let mut choices = copy_ids(devices);
    if allow_all {
        let all = "ALL".to_string();
        proof {
            reveal_strlit("ALL");
            assert(all@ =~= all_choice());
            lemma_ids_push(choices@, all);
        }
        choices.push(all);
    }
    Some(choices)
}

/// The selection that follows from the attached `devices` and, where the
/// chooser was shown, the zero-based index it returned (`None` where it
/// could not obtain one).
///
/// No device gives no selection and a single device is selected without a
/// choice. Otherwise the index picks a device, or, where `allow_all` holds,
/// the index just past the devices selects all of them.
pub fn select_device(devices: &[String], allow_all: bool, choice: Option<usize>) -> (r: Result<
    Option<DeviceSelection>,
    AdbError,
>)
    ensures
        devices@.len() == 0 ==> r == Ok::<Option<DeviceSelection>, AdbError>(None),
        devices@.len() == 1 ==> (r matches Ok(Some(s)) && s is Single && s.targets() == seq![
            devices@[0]@,
        ]),
        devices@.len() >= 2 ==> match choice {
            None => r == Err::<Option<DeviceSelection>, AdbError>(AdbError::Selection),
            Some(i) => if allow_all && i == devices@.len() {
                r matches Ok(Some(s)) && s is All && s.targets() == ids_view(devices@)
            } else if i < devices@.len() {
                r matches Ok(Some(s)) && s is Single && s.targets() == seq![devices@[i as int]@]
            } else {
                r == Err::<Option<DeviceSelection>, AdbError>(AdbError::Selection)
            },
        },
{
    if devices.len() == 0 {
        return Ok(None);
    }
    if devices.len() == 1 {
        return Ok(Some(DeviceSelection::Single(devices[0].clone())));
    }
    match choice {
        None => Err(AdbError::Selection),
        Some(i) => {
            if allow_all && i == devices.len() {
                Ok(Some(DeviceSelection::All(copy_ids(devices))))
            } else if i < devices.len() {
                Ok(Some(DeviceSelection::Single(devices[i].clone())))
            } else {
                Err(AdbError::Selection)
            }
        },
    }
}

proof fn lemma_ready_ids_come_from_lines(lines: Seq<Seq<char>>)
    ensures
        forall|k: int|
            0 <= k < ready_ids(lines).len() ==> exists|i: int|
                0 <= i < lines.len() && #[trigger] ready_id(lines[i]) == Some(
                    #[trigger] ready_ids(lines)[k],
                ),
    decreases lines.len(),
{
    if lines.len() > 0 {
        let init = lines.drop_last();
        lemma_ready_ids_come_from_lines(init);
        assert forall|k: int| 0 <= k < ready_ids(lines).len() implies exists|i: int|
            0 <= i < lines.len() && #[trigger] ready_id(lines[i]) == Some(
                #[trigger] ready_ids(lines)[k],
            ) by {
            if k < ready_ids(init).len() {
                let i = choose|i: int|
                    0 <= i < init.len() && #[trigger] ready_id(init[i]) == Some(
                        #[trigger] ready_ids(init)[k],
                    );
                assert(lines[i] == init[i]);
                assert(ready_id(lines[i]) == Some(ready_ids(lines)[k]));
            } else {
                assert(ready_id(lines[lines.len() - 1]) == Some(ready_ids(lines)[k]));
            }
        }
    }
}

/// `line` has at least two words, the second is exactly `device` and the
/// first is `id`.
pub open spec fn is_ready_line_of(line: Seq<char>, id: Seq<char>) -> bool {
    let w = words_of(line);
    w.len() >= 2 && w[1] == ready_status() && w[0] == id
}

/// Every device in a listing's result is the first word of a line after
/// the header whose second word is exactly `device`: a line with any other
/// status, or with fewer than two words, never contributes.
pub proof fn lemma_listed_devices_are_ready(output: Seq<char>)
    ensures
        forall|k: int|
            0 <= k < listed_devices(output).len() ==> exists|i: int|
                1 <= i < lines_of(output).len() && is_ready_line_of(
                    #[trigger] lines_of(output)[i],
                    #[trigger] listed_devices(output)[k],
                ),
{
    let lines = lines_of(output);
    if lines.len() > 0 {
        let rest = lines.drop_first();
        lemma_ready_ids_come_from_lines(rest);
        assert forall|k: int| 0 <= k < listed_devices(output).len() implies exists|i: int|
            1 <= i < lines_of(output).len() && is_ready_line_of(
                #[trigger] lines_of(output)[i],
                #[trigger] listed_devices(output)[k],
            ) by {
            let i = choose|i: int|
                0 <= i < rest.len() && #[trigger] ready_id(rest[i]) == Some(
                    #[trigger] ready_ids(rest)[k],
                );
            assert(lines[i + 1] == rest[i]);
            assert(is_ready_line_of(lines_of(output)[i + 1], listed_devices(output)[k]));
        }
    } else {
        assert(listed_devices(output).len() == 0);
    }
}

} // verus!
