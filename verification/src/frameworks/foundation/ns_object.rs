//! `NSObject`: the decisions behind key-value coding, delayed and
//! main-thread performs, method signatures and descriptions. Message sends,
//! selector lookups and the run loop are the host's work; selector names,
//! keys and class names are byte strings.

use vstd::prelude::*;
use crate::bytes::{bytes_eq, copy_bytes};
use crate::libc::stdlib::radix::{all_digits, digit_value, digits_value, is_digit_in};
use crate::literals::{
    play, play_bytes, start_movie, start_movie_bytes, stop_movie_arg, stop_movie_arg_bytes,
    stop_movie, stop_movie_bytes, movie_player_init, movie_player_init_bytes, load_movie,
    load_movie_bytes, ferrari_bundle, ferrari_bundle_bytes, hos2_bundle, hos2_bundle_bytes,
    init_text_input, init_text_input_bytes, remove_text_field, remove_text_field_bytes,
    send_game_info, send_game_info_bytes, set_status_bar, set_status_bar_bytes,
};

verus! {

/// Whether `s` begins with `prefix`.
pub open spec fn has_prefix(s: Seq<u8>, prefix: Seq<u8>) -> bool {
    prefix.len() <= s.len() && s.take(prefix.len() as int) == prefix
}

/// Whether a byte string begins with another.
pub fn starts_with(s: &[u8], prefix: &[u8]) -> (r: bool)
    ensures
        r == has_prefix(s@, prefix@),
{
    if prefix.len() > s.len() {
        return false;
    }
    let mut i: usize = 0;
    while i < prefix.len()
        invariant
            prefix.len() <= s.len(),
            i <= prefix.len(),
            forall|j: int| 0 <= j < i ==> s@[j] == prefix@[j],
        decreases prefix.len() - i,
    {
        if s[i] != prefix[i] {
            assert(s@.take(prefix.len() as int)[i as int] != prefix@[i as int]);
            return false;
        }
        i = i + 1;
    }
    assert(s@.take(prefix.len() as int) =~= prefix@);
    true
}

/// The number of `:` in a selector name.
pub open spec fn colon_count(s: Seq<u8>) -> int
    decreases s.len(),
{
    if s.len() == 0 {
        0
    } else {
        colon_count(s.drop_last()) + if s.last() == 0x3a { 1int } else { 0int }
    }
}

proof fn lemma_colon_count_bound(s: Seq<u8>)
    ensures
        0 <= colon_count(s) <= s.len(),
    decreases s.len(),
{
    if s.len() > 0 {
        lemma_colon_count_bound(s.drop_last());
    }
}

/// The number of arguments in the method signature built for a selector:
/// one per `:`, plus the receiver and the selector.
pub fn method_signature_argument_count(selector: &[u8]) -> (r: u32)
    requires
        selector.len() < u32::MAX - 2,
    ensures
        r == colon_count(selector@) + 2,
{
    let mut count: u32 = 0;
    let mut i: usize = 0;
    while i < selector.len()
        invariant
            i <= selector.len(),
            selector.len() < u32::MAX - 2,
            count == colon_count(selector@.take(i as int)),
            count <= i,
        decreases selector.len() - i,
    {
        proof {
            let t = selector@.take(i + 1);
            assert(t.drop_last() =~= selector@.take(i as int));
            lemma_colon_count_bound(selector@.take(i as int));
        }
        if selector[i] == 0x3a {
            count = count + 1;
        }
        i = i + 1;
    }
    proof {
        assert(selector@.take(i as int) =~= selector@);
    }
    count + 2
}

/// Whether a selector takes an argument: its name ends in `:`.
pub fn takes_argument(selector: &[u8]) -> (r: bool)
    ensures
        r == (selector.len() > 0 && selector@.last() == 0x3a),
{
    selector.len() > 0 && selector[selector.len() - 1] == 0x3a
}

/// The upper-case form of an ASCII letter; other bytes stay as they are.
pub open spec fn ascii_upper(c: u8) -> u8 {
    if 0x61 <= c <= 0x7a {
        (c - 0x20) as u8
    } else {
        c
    }
}

fn to_ascii_uppercase(c: u8) -> (r: u8)
    ensures
        r == ascii_upper(c),
{
    if 0x61 <= c && c <= 0x7a {
        c - 0x20
    } else {
        c
    }
}

/// A key with its first letter in upper case: the part of an accessor name
/// after `set`, `_set` or `is`.
pub open spec fn capitalized(key: Seq<u8>) -> Seq<u8> {
    seq![ascii_upper(key[0])] + key.drop_first()
}

/// `prefix` followed by the capitalized key, followed by `suffix`.
fn accessor_name(prefix: &[u8], key: &[u8], suffix: &[u8]) -> (r: Vec<u8>)
    requires
        key.len() > 0,
    ensures
        r@ == prefix@ + capitalized(key@) + suffix@,
{
    let mut out = copy_bytes(prefix);
    out.push(to_ascii_uppercase(key[0]));
    let mut i: usize = 1;
    while i < key.len()
        invariant
            1 <= i <= key.len(),
            out@ == prefix@ + seq![ascii_upper(key@[0])] + key@.subrange(1, i as int),
        decreases key.len() - i,
    {
        out.push(key[i]);
        i = i + 1;
        assert(out@ =~= prefix@ + seq![ascii_upper(key@[0])] + key@.subrange(1, i as int));
    }
    let mut j: usize = 0;
    let ghost base = out@;
    while j < suffix.len()
        invariant
            j <= suffix.len(),
            out@ == base + suffix@.take(j as int),
        decreases suffix.len() - j,
    {
        out.push(suffix[j]);
        j = j + 1;
        assert(out@ =~= base + suffix@.take(j as int));
    }
    assert(suffix@.take(j as int) =~= suffix@);
    assert(key@.subrange(1, key@.len() as int) =~= key@.drop_first());
    assert(out@ =~= prefix@ + capitalized(key@) + suffix@);
    out
}

/// `set` as bytes.
pub open spec fn set_word() -> Seq<u8> {
    seq![0x73u8, 0x65, 0x74]
}

/// The names tried by `setValue:forKey:`, in order: the setter `setKey:`,
/// the private setter `_setKey:`, and the instance variables `_key`,
/// `_isKey`, `key` and `isKey`.
#[derive(Debug)]
pub struct KvcNames {
    pub setter: Vec<u8>,
    pub private_setter: Vec<u8>,
    pub ivars: Vec<Vec<u8>>,
}

/// The names `setValue:forKey:` tries for a key.
pub fn kvc_names(key: &[u8]) -> (r: KvcNames)
    requires
        key.len() > 0,
    ensures
        r.setter@ == set_word() + capitalized(key@) + seq![0x3au8],
        r.private_setter@ == seq![0x5fu8] + set_word() + capitalized(key@) + seq![0x3au8],
        r.ivars@.len() == 4,
        r.ivars@[0]@ == seq![0x5fu8] + key@,
        r.ivars@[1]@ == seq![0x5fu8, 0x69, 0x73] + capitalized(key@),
        r.ivars@[2]@ == key@,
        r.ivars@[3]@ == seq![0x69u8, 0x73] + capitalized(key@),
{
    let set = vec![0x73u8, 0x65, 0x74];
    let private_set = vec![0x5fu8, 0x73, 0x65, 0x74];
    let colon = vec![0x3au8];
    let empty: Vec<u8> = Vec::new();
    let setter = accessor_name(set.as_slice(), key, colon.as_slice());
    let private_setter = accessor_name(private_set.as_slice(), key, colon.as_slice());
    let underscore = vec![0x5fu8];
    let mut ivar0 = copy_bytes(underscore.as_slice());
    let mut k: usize = 0;
    while k < key.len()
        invariant
            k <= key.len(),
            ivar0@ == seq![0x5fu8] + key@.take(k as int),
        decreases key.len() - k,
    {
        ivar0.push(key[k]);
        k = k + 1;
        assert(ivar0@ =~= seq![0x5fu8] + key@.take(k as int));
    }
    assert(key@.take(k as int) =~= key@);
    let under_is = vec![0x5fu8, 0x69, 0x73];
    let ivar1 = accessor_name(under_is.as_slice(), key, empty.as_slice());
    let ivar2 = copy_bytes(key);
    let is = vec![0x69u8, 0x73];
    let ivar3 = accessor_name(is.as_slice(), key, empty.as_slice());
    proof {
        assert(set@ =~= set_word());
        assert(private_set@ =~= seq![0x5fu8] + set_word());
        assert(colon@ =~= seq![0x3au8]);
        assert(empty@ =~= Seq::<u8>::empty());
        assert(ivar1@ =~= seq![0x5fu8, 0x69, 0x73] + capitalized(key@));
        assert(ivar3@ =~= seq![0x69u8, 0x73] + capitalized(key@));
    }
    let ivars = vec![ivar0, ivar1, ivar2, ivar3];
    KvcNames { setter, private_setter, ivars }
}

/// What `setValue:forKey:` does.
#[derive(Debug, PartialEq, Eq, Structural)]
pub enum KvcSetAction {
    /// Nothing (a nil key).
    Ignore,
    /// Send `setValue:forUndefinedKey:`.
    UndefinedKey,
    /// Send `setNilValueForKey:`.
    SetNilValue,
    /// Send the setter `setKey:`.
    CallSetter,
    /// Send the private setter `_setKey:`.
    CallPrivateSetter,
    /// Retain the value and store it in the instance variable found (the
    /// index among `KvcNames::ivars` of the first that exists).
    StoreIvar(usize),
}

/// Whether every byte of a key is ASCII.
pub open spec fn is_ascii_key(key: Seq<u8>) -> bool {
    forall|i: int| 0 <= i < key.len() ==> key[i] < 0x80
}

/// `setValue:forKey:`: what happens given the key (`None` for nil), whether
/// the value is nil, and what the runtime has: the setter and private
/// setter methods, whether the class allows direct instance variable
/// access, and the first instance variable (by `KvcNames::ivars` order)
/// that exists. An empty or non-ASCII key is undefined; a nil value goes to
/// the setter where there is one and to `setNilValueForKey:` otherwise.
pub open spec fn spec_kvc_set_action(
    key: Option<Seq<u8>>,
    value_is_nil: bool,
    has_setter: bool,
    has_private_setter: bool,
    access_ivars: bool,
    first_ivar: Option<usize>,
) -> KvcSetAction {
    match key {
        None => KvcSetAction::Ignore,
        Some(k) => if k.len() == 0 || !is_ascii_key(k) {
            KvcSetAction::UndefinedKey
        } else if value_is_nil {
            if has_setter {
                KvcSetAction::CallSetter
            } else {
                KvcSetAction::SetNilValue
            }
        } else if has_setter {
            KvcSetAction::CallSetter
        } else if has_private_setter {
            KvcSetAction::CallPrivateSetter
        } else if access_ivars && first_ivar is Some {
            KvcSetAction::StoreIvar(first_ivar.unwrap())
        } else {
            KvcSetAction::UndefinedKey
        },
    }
}

fn is_ascii(key: &[u8]) -> (r: bool)
    ensures
        r == is_ascii_key(key@),
{
    let mut i: usize = 0;
    while i < key.len()
        invariant
            i <= key.len(),
            forall|j: int| 0 <= j < i ==> key@[j] < 0x80,
        decreases key.len() - i,
    {
        if key[i] >= 0x80 {
            return false;
        }
        i = i + 1;
    }
    true
}

/// `setValue:forKey:`'s decision (see `spec_kvc_set_action`).
pub fn kvc_set_action(
    key: Option<&[u8]>,
    value_is_nil: bool,
    has_setter: bool,
    has_private_setter: bool,
    access_ivars: bool,
    first_ivar: Option<usize>,
) -> (r: KvcSetAction)
    ensures
        r == spec_kvc_set_action(
            match key {
                Some(k) => Some(k@),
                None => None,
            },
            value_is_nil,
            has_setter,
            has_private_setter,
            access_ivars,
            first_ivar,
        ),
{
    let k = match key {
        None => return KvcSetAction::Ignore,
        Some(k) => k,
    };
    if k.len() == 0 || !is_ascii(k) {
        return KvcSetAction::UndefinedKey;
    }
    if value_is_nil {
        return if has_setter {
            KvcSetAction::CallSetter
        } else {
            KvcSetAction::SetNilValue
        };
    }
    if has_setter {
        return KvcSetAction::CallSetter;
    }
    if has_private_setter {
        return KvcSetAction::CallPrivateSetter;
    }
    if access_ivars {
        if let Some(i) = first_ivar {
            return KvcSetAction::StoreIvar(i);
        }
    }
    KvcSetAction::UndefinedKey
}

/// The boolean getter `valueForKey:` tries after the key itself: `isKey`.
pub fn value_for_key_is_name(key: &[u8]) -> (r: Vec<u8>)
    requires
        key.len() > 0,
        key@[0] < 0x80,
    ensures
        r@ == seq![0x69u8, 0x73] + capitalized(key@),
{
    let is = vec![0x69u8, 0x73];
    let empty: Vec<u8> = Vec::new();
    let r = accessor_name(is.as_slice(), key, empty.as_slice());
    proof {
        assert(is@ =~= seq![0x69u8, 0x73]);
        assert(empty@ =~= Seq::<u8>::empty());
        assert(r@ =~= seq![0x69u8, 0x73] + capitalized(key@));
    }
    r
}

/// The cancelled delayed performs: a target, with the selector name
/// cancelled or `None` for all of the target's performs.
pub struct CancelledPerforms {
    entries: Vec<(u32, Option<Vec<u8>>)>,
}

/// An entry's spec form.
pub open spec fn entry_view(e: (u32, Option<Vec<u8>>)) -> (u32, Option<Seq<u8>>) {
    (
        e.0,
        match e.1 {
            Some(s) => Some(s@),
            None => None,
        },
    )
}

/// Whether entry `i` is the first for a target and selector.
pub open spec fn is_first_match(entries: Seq<(u32, Option<Seq<u8>>)>, target: u32, sel: Seq<u8>, i: int) -> bool {
    &&& 0 <= i < entries.len()
    &&& entries[i] == (target, Some(sel))
    &&& forall|j: int| 0 <= j < i ==> entries[j] != (target, Some(sel))
}

/// Whether the list cancels all of a target's performs.
pub open spec fn cancels_all(entries: Seq<(u32, Option<Seq<u8>>)>, target: u32) -> bool {
    exists|i: int| 0 <= i < entries.len() && entries[i] == (target, None::<Seq<u8>>)
}

/// Whether the list holds an entry for a target and selector.
pub open spec fn has_match(entries: Seq<(u32, Option<Seq<u8>>)>, target: u32, sel: Seq<u8>) -> bool {
    exists|i: int| 0 <= i < entries.len() && entries[i] == (target, Some(sel))
}

impl CancelledPerforms {
    /// The entries in order.
    pub closed spec fn view(&self) -> Seq<(u32, Option<Seq<u8>>)> {
        self.entries@.map_values(|e: (u32, Option<Vec<u8>>)| entry_view(e))
    }

    /// Nothing is cancelled.
    pub fn new() -> (r: Self)
        ensures
            r@ == Seq::<(u32, Option<Seq<u8>>)>::empty(),
    {
        let r = CancelledPerforms { entries: Vec::new() };
        assert(r@ =~= Seq::<(u32, Option<Seq<u8>>)>::empty());
        r
    }

    /// `cancelPreviousPerformRequestsWithTarget:selector:object:` (with a
    /// selector) and `cancelPreviousPerformRequestsWithTarget:` (without):
    /// records the cancellation.
    pub fn cancel(&mut self, target: u32, selector: Option<&[u8]>)
        ensures
            final(self)@ == old(self)@.push(
                (
                    target,
                    match selector {
                        Some(s) => Some(s@),
                        None => None,
                    },
                ),
            ),
    {
        let sel = match selector {
            Some(s) => Some(copy_bytes(s)),
            None => None,
        };
        let ghost old_entries = self.entries@;
        self.entries.push((target, sel));
        assert(self@ =~= old(self)@.push(entry_view((target, sel))));
    }

    fn find_match(&self, target: u32, selector: &[u8]) -> (r: Option<usize>)
        ensures
            match r {
                Some(i) => is_first_match(self@, target, selector@, i as int),
                None => !has_match(self@, target, selector@),
            },
    {
        let mut i: usize = 0;
        while i < self.entries.len()
            invariant
                i <= self.entries@.len(),
                self@.len() == self.entries@.len(),
                forall|j: int| 0 <= j < i ==> self@[j] != (target, Some(selector@)),
            decreases self.entries.len() - i,
        {
            let matches = self.entries[i].0 == target && match &self.entries[i].1 {
                Some(s) => bytes_eq(s.as_slice(), selector),
                None => false,
            };
            assert(self@[i as int] == entry_view(self.entries@[i as int]));
            if matches {
                return Some(i);
            }
            i = i + 1;
        }
        None
    }

    fn find_all(&self, target: u32) -> (r: bool)
        ensures
            r == cancels_all(self@, target),
    {
        let mut k: usize = 0;
        while k < self.entries.len()
            invariant
                k <= self.entries@.len(),
                self@.len() == self.entries@.len(),
                forall|j: int| 0 <= j < k ==> self@[j] != (target, None::<Seq<u8>>),
            decreases self.entries.len() - k,
        {
            assert(self@[k as int] == entry_view(self.entries@[k as int]));
            if self.entries[k].0 == target && self.entries[k].1.is_none() {
                return true;
            }
            k = k + 1;
        }
        false
    }

    /// The check made when a delayed perform fires: it is cancelled where
    /// the list holds an entry for its target and selector (the first such
    /// entry is used up) or one for all of its target's performs (which
    /// stays).
    pub fn is_cancelled(&mut self, target: u32, selector: &[u8]) -> (r: bool)
        ensures
            has_match(old(self)@, target, selector@) ==> r && exists|i: int|
                is_first_match(old(self)@, target, selector@, i) && final(self)@ == old(self)@.remove(i),
            !has_match(old(self)@, target, selector@) ==> r == cancels_all(old(self)@, target)
                && final(self)@ == old(self)@,
    {
        match self.find_match(target, selector) {
            Some(i) => {
                self.entries.remove(i);
                assert(self@ =~= old(self)@.remove(i as int));
                true
            },
            None => self.find_all(target),
        }
    }
}

/// A perform cancelled for a target and selector is skipped when it
/// fires next, and the cancellation is then used up.
pub proof fn lemma_cancel_then_fire(entries: Seq<(u32, Option<Seq<u8>>)>, target: u32, sel: Seq<u8>)
    requires
        !has_match(entries, target, sel),
    ensures
        has_match(entries.push((target, Some(sel))), target, sel),
        is_first_match(entries.push((target, Some(sel))), target, sel, entries.len() as int),
        entries.push((target, Some(sel))).remove(entries.len() as int) == entries,
{
    let e = entries.push((target, Some(sel)));
    assert(e[entries.len() as int] == (target, Some(sel)));
    assert(e.remove(entries.len() as int) =~= entries);
}

/// How `performSelectorOnMainThread:withObject:waitUntilDone:` proceeds.
#[derive(Debug, PartialEq, Eq, Structural)]
pub enum MainThreadDispatch {
    /// Nothing happens (video playback is not emulated).
    Ignore,
    /// Send the message now; with the argument where `with_argument`.
    SendNow { with_argument: bool },
    /// Schedule the message on the main run loop with no delay.
    Schedule,
}

/// The selectors that start, stop or load video playback.
pub open spec fn is_video_selector(sel: Seq<u8>) -> bool {
    sel == play() || sel == start_movie() || sel == stop_movie_arg() || sel == stop_movie() || sel
        == movie_player_init() || sel == load_movie()
}

/// What `performSelectorOnMainThread:withObject:waitUntilDone:` does: video
/// selectors are ignored; on the main thread the message is sent at once
/// (with the argument where the selector takes one); from another thread
/// it is scheduled on the main run loop, except for two games whose
/// waiting calls of certain selectors are sent at once (Ferrari GT's always
/// with the argument).
pub open spec fn spec_main_thread_dispatch(sel: Seq<u8>, on_main_thread: bool, bundle_id: Seq<u8>, wait: bool) -> MainThreadDispatch {
    let with_argument = sel.len() > 0 && sel.last() == 0x3a;
    if is_video_selector(sel) {
        MainThreadDispatch::Ignore
    } else if on_main_thread {
        MainThreadDispatch::SendNow { with_argument }
    } else if has_prefix(bundle_id, ferrari_bundle()) && wait && (sel == init_text_input() || sel
        == remove_text_field()) {
        MainThreadDispatch::SendNow { with_argument: true }
    } else if has_prefix(bundle_id, hos2_bundle()) && wait && (sel == send_game_info() || sel
        == set_status_bar()) {
        MainThreadDispatch::SendNow { with_argument }
    } else {
        MainThreadDispatch::Schedule
    }
}

/// Video selectors are never sent; any other selector on the main thread is
/// sent at once, with the argument exactly when its name ends in `:`; from
/// another thread a call that does not wait is always scheduled, as is one
/// from an app other than the two special-cased games.
pub proof fn lemma_main_thread_dispatch(sel: Seq<u8>, on_main_thread: bool, bundle_id: Seq<u8>, wait: bool)
    ensures
        (sel == seq![0x70u8, 0x6c, 0x61, 0x79] || sel == stop_movie()) ==> spec_main_thread_dispatch(
            sel,
            on_main_thread,
            bundle_id,
            wait,
        ) == MainThreadDispatch::Ignore,
        !is_video_selector(sel) && on_main_thread ==> spec_main_thread_dispatch(
            sel,
            on_main_thread,
            bundle_id,
            wait,
        ) == (MainThreadDispatch::SendNow {
            with_argument: sel.len() > 0 && sel[sel.len() - 1] == 0x3a,
        }),
        !is_video_selector(sel) && !on_main_thread && !wait ==> spec_main_thread_dispatch(
            sel,
            on_main_thread,
            bundle_id,
            wait,
        ) == MainThreadDispatch::Schedule,
        !is_video_selector(sel) && !on_main_thread && !has_prefix(bundle_id, ferrari_bundle())
            && !has_prefix(bundle_id, hos2_bundle()) ==> spec_main_thread_dispatch(
            sel,
            on_main_thread,
            bundle_id,
            wait,
        ) == MainThreadDispatch::Schedule,
{
}

fn is_video(sel: &[u8]) -> (r: bool)
    ensures
        r == is_video_selector(sel@),
{
    bytes_eq(sel, play_bytes().as_slice()) || bytes_eq(sel, start_movie_bytes().as_slice())
        || bytes_eq(sel, stop_movie_arg_bytes().as_slice()) || bytes_eq(
        sel,
        stop_movie_bytes().as_slice(),
    ) || bytes_eq(sel, movie_player_init_bytes().as_slice()) || bytes_eq(
        sel,
        load_movie_bytes().as_slice(),
    )
}

/// `performSelectorOnMainThread:withObject:waitUntilDone:`'s decision (see
/// `spec_main_thread_dispatch`).
pub fn main_thread_dispatch(sel: &[u8], on_main_thread: bool, bundle_id: &[u8], wait: bool) -> (r:
    MainThreadDispatch)
    ensures
        r == spec_main_thread_dispatch(sel@, on_main_thread, bundle_id@, wait),
{
    let with_argument = takes_argument(sel);
    if is_video(sel) {
        return MainThreadDispatch::Ignore;
    }
    if on_main_thread {
        return MainThreadDispatch::SendNow { with_argument };
    }
    if starts_with(bundle_id, ferrari_bundle_bytes().as_slice()) && wait {
        if bytes_eq(sel, init_text_input_bytes().as_slice()) || bytes_eq(
            sel,
            remove_text_field_bytes().as_slice(),
        ) {
            return MainThreadDispatch::SendNow { with_argument: true };
        }
    }
    if starts_with(bundle_id, hos2_bundle_bytes().as_slice()) && wait {
        if bytes_eq(sel, send_game_info_bytes().as_slice()) || bytes_eq(
            sel,
            set_status_bar_bytes().as_slice(),
        ) {
            return MainThreadDispatch::SendNow { with_argument };
        }
    }
    MainThreadDispatch::Schedule
}

/// The lower-case hexadecimal digits of a number, without leading zeros
/// (`0` for zero).
pub open spec fn hex_digits(n: nat) -> Seq<u8>
    decreases n,
{
    if n < 16 {
        seq![hex_digit(n)]
    } else {
        hex_digits(n / 16) + seq![hex_digit(n % 16)]
    }
}

/// The lower-case hexadecimal digit of a value below 16.
pub open spec fn hex_digit(d: nat) -> u8 {
    if d < 10 {
        (0x30 + d) as u8
    } else {
        (0x61 + d - 10) as u8
    }
}

fn hex_digit_of(d: u32) -> (r: u8)
    requires
        d < 16,
    ensures
        r == hex_digit(d as nat),
{
    if d < 10 {
        (0x30 + d) as u8
    } else {
        (0x61 + d - 10) as u8
    }
}

/// The hexadecimal digits of a number.
pub fn to_hex(n: u32) -> (r: Vec<u8>)
    ensures
        r@ == hex_digits(n as nat),
    decreases n,
{
    if n < 16 {
        let r = vec![hex_digit_of(n)];
        assert(r@ =~= seq![hex_digit(n as nat)]);
        r
    } else {
        let mut r = to_hex(n / 16);
        r.push(hex_digit_of(n % 16));
        r
    }
}

/// `setValue:forKey:` never touches anything for a nil key, sends
/// `setValue:forUndefinedKey:` for an empty or non-ASCII key whatever the
/// class has, always uses a setter the class has for a usable key, and
/// stores into an instance variable only where the class has no setter of
/// either kind, allows direct access and has such a variable.
pub proof fn lemma_kvc_set_precedence(
    key: Option<Seq<u8>>,
    value_is_nil: bool,
    has_setter: bool,
    has_private_setter: bool,
    access_ivars: bool,
    first_ivar: Option<usize>,
)
    ensures
        ({
            let a = spec_kvc_set_action(
                key,
                value_is_nil,
                has_setter,
                has_private_setter,
                access_ivars,
                first_ivar,
            );
            &&& key is None <==> a == KvcSetAction::Ignore
            &&& (key matches Some(k) && (k.len() == 0 || exists|i: int| 0 <= i < k.len() && k[i]
                >= 0x80)) ==> a == KvcSetAction::UndefinedKey
            &&& (key matches Some(k) && k.len() > 0 && is_ascii_key(k) && has_setter) ==> a
                == KvcSetAction::CallSetter
            &&& match a {
                KvcSetAction::StoreIvar(i) => !has_setter && !has_private_setter && access_ivars
                    && first_ivar == Some(i) && !value_is_nil,
                _ => true,
            }
        }),
{
}

/// The hexadecimal digits written for a number read back, in radix 16, as
/// that number.
pub proof fn lemma_hex_digits_read_back(n: nat)
    ensures
        all_digits(hex_digits(n), 16),
        digits_value(hex_digits(n), 16) == n,
    decreases n,
{
    if n < 16 {
        let s = seq![hex_digit(n)];
        assert(s.drop_last() =~= Seq::<u8>::empty());
        assert(digit_value(hex_digit(n)) == n);
        assert(is_digit_in(s[0], 16));
        assert(hex_digits(n) == s);
        assert(digits_value(s, 16) == digits_value(Seq::<u8>::empty(), 16) * 16 + digit_value(hex_digit(n)));
    } else {
        let high = n / 16;
        let low = n % 16;
        lemma_hex_digits_read_back(high);
        let s = hex_digits(high) + seq![hex_digit(low)];
        assert(s.drop_last() =~= hex_digits(high));
        assert(s.last() == hex_digit(low));
        assert(digit_value(hex_digit(low)) == low);
        assert(high * 16 + low == n);
        assert(hex_digits(n) == s);
        assert(digits_value(s, 16) == digits_value(hex_digits(high), 16) * 16 + low);
        assert forall|i: int| 0 <= i < s.len() implies #[trigger] is_digit_in(s[i], 16) by {
            if i < hex_digits(high).len() {
                assert(s[i] == hex_digits(high)[i]);
            }
        }
    }
}

/// The `description` of an instance: `<ClassName: 0x...>` with its address
/// in lower-case hexadecimal.
pub open spec fn spec_instance_description(class_name: Seq<u8>, address: u32) -> Seq<u8> {
    seq![0x3cu8] + class_name + seq![0x3au8, 0x20, 0x30, 0x78] + hex_digits(address as nat) + seq![
        0x3eu8,
    ]
}

/// `description` of an instance (see `spec_instance_description`).
pub fn instance_description(class_name: &[u8], address: u32) -> (r: Vec<u8>)
    ensures
        r@ == spec_instance_description(class_name@, address),
{
    let mut out: Vec<u8> = vec![0x3c];
    let mut i: usize = 0;
    while i < class_name.len()
        invariant
            i <= class_name.len(),
            out@ == seq![0x3cu8] + class_name@.take(i as int),
        decreases class_name.len() - i,
    {
        out.push(class_name[i]);
        i = i + 1;
        assert(out@ =~= seq![0x3cu8] + class_name@.take(i as int));
    }
    assert(class_name@.take(i as int) =~= class_name@);
    out.push(0x3a);
    out.push(0x20);
    out.push(0x30);
    out.push(0x78);
    let hex = to_hex(address);
    let mut j: usize = 0;
    let ghost base = out@;
    while j < hex.len()
        invariant
            j <= hex.len(),
            out@ == base + hex@.take(j as int),
        decreases hex.len() - j,
    {
        out.push(hex[j]);
        j = j + 1;
        assert(out@ =~= base + hex@.take(j as int));
    }
    assert(hex@.take(j as int) =~= hex@);
    out.push(0x3e);
    assert(out@ =~= spec_instance_description(class_name@, address));
    out
}

} // verus!
