//! Inbound command parsing.
//!
//! Remote commands arrive as small flat objects in the bus's usual notation:
//! one or more `"key": true|false` members inside braces, with optional
//! whitespace, for example `{"shutdown": true}`.  A payload is interpreted
//! against an ordered list of candidate schemas, tried in the declared
//! order, and the first schema whose key the object carries wins:
//!
//! 1. `shutdown` — request the host to shut down (when `true`);
//! 2. `speed_test` — switch the per-tick reporting off or on.
//!
//! Note that a payload carrying both keys matches the first schema only
//! because of the declared order; nothing else disambiguates it.  A payload
//! matching no schema is a [`ProtocolError`], and only that message is
//! dropped.
//!
//! The grammar is specified byte-for-byte by the `spec_` functions below
//! and the executable parser returns exactly what the specification names.

use vstd::prelude::*;

use crate::errors::ProtocolError;

verus! {

/// A command the plugin understands.
#[derive(Clone, Copy, PartialEq, Eq, Structural, Debug)]
pub enum Command {
    /// Ask the host to shut down (when the carried value is `true`).
    Shutdown(bool),
    /// Switch the per-tick frame report off (`true`) or back on (`false`).
    SpeedTest(bool),
}

/// The notation's whitespace: space, tab, line feed, carriage return.
pub open spec fn is_ws(b: u8) -> bool {
    b == 32 || b == 9 || b == 10 || b == 13
}

/// The first position at or after `i` holding a non-whitespace byte (or the
/// end of the payload).
pub open spec fn spec_skip_ws(s: Seq<u8>, i: int) -> int
    decreases s.len() - i,
{
    if 0 <= i < s.len() && is_ws(s[i]) {
        spec_skip_ws(s, i + 1)
    } else {
        i
    }
}

proof fn lemma_skip_ws_bounds(s: Seq<u8>, i: int)
    requires
        0 <= i <= s.len(),
    ensures
        i <= spec_skip_ws(s, i) <= s.len(),
    decreases s.len() - i,
{
    if i < s.len() && is_ws(s[i]) {
        lemma_skip_ws_bounds(s, i + 1);
    }
}

/// The bytes of a key read after its opening quote, up to the closing
/// quote; keys carry no escapes.
pub open spec fn spec_parse_key_body(s: Seq<u8>, i: int, acc: Seq<u8>) -> Option<(Seq<u8>, int)>
    decreases s.len() - i,
{
    if i < 0 || i >= s.len() {
        None
    } else if s[i] == 34 {
        Some((acc, i + 1))
    } else {
        spec_parse_key_body(s, i + 1, acc.push(s[i]))
    }
}

/// A quoted key starting at `i`.
pub open spec fn spec_parse_key(s: Seq<u8>, i: int) -> Option<(Seq<u8>, int)> {
    if 0 <= i < s.len() && s[i] == 34 {
        spec_parse_key_body(s, i + 1, Seq::empty())
    } else {
        None
    }
}

proof fn lemma_parse_key_body_advances(s: Seq<u8>, i: int, acc: Seq<u8>)
    requires
        0 <= i <= s.len(),
    ensures
        match spec_parse_key_body(s, i, acc) {
            Some((_, j)) => i < j <= s.len(),
            None => true,
        },
    decreases s.len() - i,
{
    if 0 <= i < s.len() && s[i] != 34 {
        lemma_parse_key_body_advances(s, i + 1, acc.push(s[i]));
    }
}

/// A literal `true` or `false` starting at `i`.
pub open spec fn spec_parse_bool(s: Seq<u8>, i: int) -> Option<(bool, int)> {
    if 0 <= i && i + 4 <= s.len() && s[i] == 116 && s[i + 1] == 114 && s[i + 2] == 117 && s[i + 3]
        == 101 {
        Some((true, i + 4))
    } else if 0 <= i && i + 5 <= s.len() && s[i] == 102 && s[i + 1] == 97 && s[i + 2] == 108 && s[i
        + 3] == 115 && s[i + 4] == 101 {
        Some((false, i + 5))
    } else {
        None
    }
}

/// One `"key" : bool` member starting at `i`.
pub open spec fn spec_parse_member(s: Seq<u8>, i: int) -> Option<((Seq<u8>, bool), int)> {
    match spec_parse_key(s, i) {
        None => None,
        Some((key, after_key)) => {
            let at_colon = spec_skip_ws(s, after_key);
            if at_colon < s.len() && s[at_colon] == 58 {
                let at_value = spec_skip_ws(s, at_colon + 1);
                match spec_parse_bool(s, at_value) {
                    None => None,
                    Some((value, after_value)) => Some(((key, value), after_value)),
                }
            } else {
                None
            }
        },
    }
}

proof fn lemma_parse_member_advances(s: Seq<u8>, i: int)
    requires
        0 <= i <= s.len(),
    ensures
        match spec_parse_member(s, i) {
            Some((_, j)) => i < j <= s.len(),
            None => true,
        },
{
    if 0 <= i < s.len() && s[i] == 34 {
        lemma_parse_key_body_advances(s, i + 1, Seq::empty());
        match spec_parse_key(s, i) {
            Some((_, after_key)) => {
                lemma_skip_ws_bounds(s, after_key);
                let at_colon = spec_skip_ws(s, after_key);
                if at_colon < s.len() && s[at_colon] == 58 {
                    lemma_skip_ws_bounds(s, at_colon + 1);
                }
            },
            None => {},
        }
    }
}

/// The comma-separated member list starting at `i`, together with the first
/// position after it (and after any trailing whitespace).
pub open spec fn spec_parse_members(s: Seq<u8>, i: int) -> Option<(Seq<(Seq<u8>, bool)>, int)>
    decreases s.len() - i
        when 0 <= i <= s.len()
        via spec_parse_members_decreases
{
    match spec_parse_member(s, i) {
        None => None,
        Some((member, after_member)) => {
            let at_delim = spec_skip_ws(s, after_member);
            if at_delim < s.len() && s[at_delim] == 44 {
                match spec_parse_members(s, spec_skip_ws(s, at_delim + 1)) {
                    None => None,
                    Some((rest, after_rest)) => Some((seq![member] + rest, after_rest)),
                }
            } else {
                Some((seq![member], at_delim))
            }
        },
    }
}

#[via_fn]
proof fn spec_parse_members_decreases(s: Seq<u8>, i: int) {
    lemma_parse_member_advances(s, i);
    match spec_parse_member(s, i) {
        Some((_, after_member)) => {
            lemma_skip_ws_bounds(s, after_member);
            let at_delim = spec_skip_ws(s, after_member);
            if at_delim < s.len() && s[at_delim] == 44 {
                lemma_skip_ws_bounds(s, at_delim + 1);
            }
        },
        None => {},
    }
}

/// The member list of a whole payload: optional whitespace, braces around
/// the members, optional whitespace, nothing else.
pub open spec fn spec_payload_members(s: Seq<u8>) -> Option<Seq<(Seq<u8>, bool)>> {
    let at_open = spec_skip_ws(s, 0);
    if at_open < s.len() && s[at_open] == 123 {
        match spec_parse_members(s, spec_skip_ws(s, at_open + 1)) {
            None => None,
            Some((members, after_members)) => {
                if after_members < s.len() && s[after_members] == 125 && spec_skip_ws(
                    s,
                    after_members + 1,
                ) == s.len() {
                    Some(members)
                } else {
                    None
                }
            },
        }
    } else {
        None
    }
}

/// The key of the first candidate schema: `shutdown`.
pub open spec fn spec_shutdown_key() -> Seq<u8> {
    seq![115u8, 104u8, 117u8, 116u8, 100u8, 111u8, 119u8, 110u8]
}

/// The key of the second candidate schema: `speed_test`.
pub open spec fn spec_speed_test_key() -> Seq<u8> {
    seq![115u8, 112u8, 101u8, 101u8, 100u8, 95u8, 116u8, 101u8, 115u8, 116u8]
}

/// The value of the first member carrying `key`, if any.
pub open spec fn spec_first_value(members: Seq<(Seq<u8>, bool)>, key: Seq<u8>) -> Option<bool>
    decreases members.len(),
{
    if members.len() == 0 {
        None
    } else if members[0].0 == key {
        Some(members[0].1)
    } else {
        spec_first_value(members.drop_first(), key)
    }
}

proof fn lemma_first_value_skip(members: Seq<(Seq<u8>, bool)>, key: Seq<u8>, i: int)
    requires
        0 <= i <= members.len(),
        forall|k: int| 0 <= k < i ==> (#[trigger] members[k]).0 != key,
    ensures
        spec_first_value(members, key) == spec_first_value(members.skip(i), key),
    decreases i,
{
    if i > 0 {
        assert(forall|k: int|
            0 <= k < i - 1 ==> (#[trigger] members.drop_first()[k]).0 != key) by {
            assert(forall|k: int|
                0 <= k < i - 1 ==> members.drop_first()[k] == (#[trigger] members[k + 1]));
        }
        lemma_first_value_skip(members.drop_first(), key, i - 1);
        assert(members.drop_first().skip(i - 1) =~= members.skip(i));
    } else {
        assert(members.skip(0) =~= members);
    }
}

/// What a payload means: the ordered schemas tried first-match-wins, over
/// the payload's member list.  `None` is a protocol error.
pub open spec fn spec_command(s: Seq<u8>) -> Option<Command> {
    match spec_payload_members(s) {
        None => None,
        Some(members) => match spec_first_value(members, spec_shutdown_key()) {
            Some(value) => Some(Command::Shutdown(value)),
            None => match spec_first_value(members, spec_speed_test_key()) {
                Some(value) => Some(Command::SpeedTest(value)),
                None => None,
            },
        },
    }
}

/// The parsed members as mathematical pairs.
pub open spec fn members_view(members: Seq<(Vec<u8>, bool)>) -> Seq<(Seq<u8>, bool)> {
    members.map(|k: int, m: (Vec<u8>, bool)| (m.0@, m.1))
}

fn skip_ws(s: &Vec<u8>, i: usize) -> (j: usize)
    requires
        i <= s@.len(),
    ensures
        j == spec_skip_ws(s@, i as int),
        i <= j <= s@.len(),
{
    let mut j = i;
    while j < s.len() && (s[j] == 32 || s[j] == 9 || s[j] == 10 || s[j] == 13)
        invariant
            i <= j <= s@.len(),
            spec_skip_ws(s@, i as int) == spec_skip_ws(s@, j as int),
        decreases s@.len() - j,
    {
        j = j + 1;
    }
    j
}

fn parse_key(s: &Vec<u8>, i: usize) -> (parsed: Option<(Vec<u8>, usize)>)
    requires
        i <= s@.len(),
    ensures
        match parsed {
            Some((key, j)) => {
                &&& spec_parse_key(s@, i as int) == Some((key@, j as int))
                &&& i < j <= s@.len()
            },
            None => spec_parse_key(s@, i as int) is None,
        },
{
    if i >= s.len() || s[i] != 34 {
        return None;
    }
    let mut acc: Vec<u8> = Vec::new();
    let mut k: usize = i + 1;
    while k < s.len() && s[k] != 34
        invariant
            i + 1 <= k <= s@.len(),
            spec_parse_key_body(s@, i as int + 1, Seq::empty()) == spec_parse_key_body(
                s@,
                k as int,
                acc@,
            ),
        decreases s@.len() - k,
    {
        acc.push(s[k]);
        k = k + 1;
    }
    if k >= s.len() {
        return None;
    }
    Some((acc, k + 1))
}

fn parse_bool(s: &Vec<u8>, i: usize) -> (parsed: Option<(bool, usize)>)
    requires
        i <= s@.len(),
    ensures
        match parsed {
            Some((value, j)) => {
                &&& spec_parse_bool(s@, i as int) == Some((value, j as int))
                &&& i < j <= s@.len()
            },
            None => spec_parse_bool(s@, i as int) is None,
        },
{
    let remaining = s.len() - i;
    if remaining >= 4 && s[i] == 116 && s[i + 1] == 114 && s[i + 2] == 117 && s[i + 3] == 101 {
        Some((true, i + 4))
    } else if remaining >= 5 && s[i] == 102 && s[i + 1] == 97 && s[i + 2] == 108 && s[i + 3] == 115
        && s[i + 4] == 101 {
        Some((false, i + 5))
    } else {
        None
    }
}

fn parse_member(s: &Vec<u8>, i: usize) -> (parsed: Option<((Vec<u8>, bool), usize)>)
    requires
        i <= s@.len(),
    ensures
        match parsed {
            Some(((key, value), j)) => {
                &&& spec_parse_member(s@, i as int) == Some(((key@, value), j as int))
                &&& i < j <= s@.len()
            },
            None => spec_parse_member(s@, i as int) is None,
        },
{
    match parse_key(s, i) {
        None => None,
        Some((key, after_key)) => {
            let at_colon = skip_ws(s, after_key);
            if at_colon < s.len() && s[at_colon] == 58 {
                let at_value = skip_ws(s, at_colon + 1);
                match parse_bool(s, at_value) {
                    None => None,
                    Some((value, after_value)) => Some(((key, value), after_value)),
                }
            } else {
                None
            }
        },
    }
}

fn parse_members(s: &Vec<u8>, i: usize) -> (parsed: Option<(Vec<(Vec<u8>, bool)>, usize)>)
    requires
        i <= s@.len(),
    ensures
        match parsed {
            Some((members, j)) => {
                &&& spec_parse_members(s@, i as int) == Some((members_view(members@), j as int))
                &&& j <= s@.len()
            },
            None => spec_parse_members(s@, i as int) is None,
        },
    decreases s@.len() - i,
{
    match parse_member(s, i) {
        None => None,
        Some((member, after_member)) => {
            let at_delim = skip_ws(s, after_member);
            if at_delim < s.len() {
                let delim = s[at_delim];
                if delim == 44 {
                    let next = skip_ws(s, at_delim + 1);
                    match parse_members(s, next) {
                        None => None,
                        Some((mut rest, after_rest)) => {
                            let ghost rest_snapshot = rest@;
                            rest.insert(0, member);
                            proof {
                                let one = seq![(member.0@, member.1)];
                                assert(members_view(rest@) =~= one + members_view(rest_snapshot));
                            }
                            Some((rest, after_rest))
                        },
                    }
                } else {
                    let members = vec_of_one(member);
                    proof {
                        assert(members_view(members@) =~= seq![(member.0@, member.1)]);
                    }
                    Some((members, at_delim))
                }
            } else {
                let members = vec_of_one(member);
                proof {
                    assert(members_view(members@) =~= seq![(member.0@, member.1)]);
                }
                Some((members, at_delim))
            }
        },
    }
}

fn vec_of_one(member: (Vec<u8>, bool)) -> (members: Vec<(Vec<u8>, bool)>)
    ensures
        members@ == seq![member],
{
    let mut members: Vec<(Vec<u8>, bool)> = Vec::new();
    members.push(member);
    proof {
        assert(members@ =~= seq![member]);
    }
    members
}

fn bytes_equal(a: &Vec<u8>, b: &Vec<u8>) -> (equal: bool)
    ensures
        equal == (a@ == b@),
{
    if a.len() != b.len() {
        return false;
    }
    let mut i: usize = 0;
    while i < a.len()
        invariant
            i <= a@.len(),
            a@.len() == b@.len(),
            forall|k: int| 0 <= k < i ==> a@[k] == b@[k],
        decreases a@.len() - i,
    {
        if a[i] != b[i] {
            return false;
        }
        i = i + 1;
    }
    proof {
        assert(a@ =~= b@);
    }
    true
}

fn shutdown_key() -> (key: Vec<u8>)
    ensures
        key@ == spec_shutdown_key(),
{
    let mut key: Vec<u8> = Vec::new();
    key.push(115);
    key.push(104);
    key.push(117);
    key.push(116);
    key.push(100);
    key.push(111);
    key.push(119);
    key.push(110);
    proof {
        assert(key@ =~= spec_shutdown_key());
    }
    key
}

fn speed_test_key() -> (key: Vec<u8>)
    ensures
        key@ == spec_speed_test_key(),
{
    let mut key: Vec<u8> = Vec::new();
    key.push(115);
    key.push(112);
    key.push(101);
    key.push(101);
    key.push(100);
    key.push(95);
    key.push(116);
    key.push(101);
    key.push(115);
    key.push(116);
    proof {
        assert(key@ =~= spec_speed_test_key());
    }
    key
}

fn first_value(members: &Vec<(Vec<u8>, bool)>, key: &Vec<u8>) -> (found: Option<bool>)
    ensures
        found == spec_first_value(members_view(members@), key@),
{
    let mut i: usize = 0;
    while i < members.len()
        invariant
            i <= members@.len(),
            forall|k: int|
                0 <= k < i ==> (#[trigger] members_view(members@)[k]).0 != key@,
        decreases members@.len() - i,
    {
        if bytes_equal(&members[i].0, key) {
            proof {
                lemma_first_value_skip(members_view(members@), key@, i as int);
                assert(members_view(members@).skip(i as int)[0] == members_view(members@)[
                    i as int]);
            }
            return Some(members[i].1);
        }
        proof {
            assert((members_view(members@)[i as int]).0 == members@[i as int].0@);
        }
        i = i + 1;
    }
    proof {
        lemma_first_value_skip(members_view(members@), key@, members@.len() as int);
        assert(members_view(members@).skip(members@.len() as int) =~= Seq::<(Seq<u8>,
            bool)>::empty());
    }
    None
}

/// Interpret one inbound payload against the declared command schemas.
/// Returns exactly the command the grammar names for the payload, and a
/// [`ProtocolError`] if and only if the payload matches no schema.
pub fn parse_command(payload: &Vec<u8>) -> (command: Result<Command, ProtocolError>)
    ensures
        match spec_command(payload@) {
            Some(c) => command == Ok::<Command, ProtocolError>(c),
            None => command == Err::<Command, ProtocolError>(ProtocolError::MalformedCommand),
        },
{
    let at_open = skip_ws(payload, 0);
    if at_open >= payload.len() || payload[at_open] != 123 {
        return Err(ProtocolError::MalformedCommand);
    }
    let at_members = skip_ws(payload, at_open + 1);
    match parse_members(payload, at_members) {
        None => Err(ProtocolError::MalformedCommand),
        Some((members, after_members)) => {
            if after_members >= payload.len() || payload[after_members] != 125 {
                return Err(ProtocolError::MalformedCommand);
            }
            let at_end = skip_ws(payload, after_members + 1);
            if at_end != payload.len() {
                return Err(ProtocolError::MalformedCommand);
            }
            let shutdown = shutdown_key();
            match first_value(&members, &shutdown) {
                Some(value) => Ok(Command::Shutdown(value)),
                None => {
                    let speed_test = speed_test_key();
                    match first_value(&members, &speed_test) {
                        Some(value) => Ok(Command::SpeedTest(value)),
                        None => Err(ProtocolError::MalformedCommand),
                    }
                },
            }
        },
    }
}

} // verus!
