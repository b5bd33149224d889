//! `system`: the commands that the emulated shell understands. Only
//! `mkdir` does anything (it creates the directory and its parents); every
//! other command succeeds without effect.

use vstd::prelude::*;
use vstd::utf8::{valid_utf8, decode_utf8};
use crate::bytes::{cstr_prefix, decode_utf8_chars, is_valid_utf8, strlen};

verus! {

/// Whether a character has the Unicode `White_Space` property, as
/// `char::is_whitespace` decides it.
pub open spec fn is_white_space(c: char) -> bool {
    let u = c as u32;
    (0x09 <= u <= 0x0d) || u == 0x20 || u == 0x85 || u == 0xa0 || u == 0x1680 || (0x2000 <= u
        <= 0x200a) || u == 0x2028 || u == 0x2029 || u == 0x202f || u == 0x205f || u == 0x3000
}

/// `char::is_whitespace`, for the `White_Space` characters listed above.
pub fn is_whitespace(c: char) -> (r: bool)
    ensures
        r == is_white_space(c),
{
    let u = c as u32;
    (0x09 <= u && u <= 0x0d) || u == 0x20 || u == 0x85 || u == 0xa0 || u == 0x1680 || (0x2000 <= u
        && u <= 0x200a) || u == 0x2028 || u == 0x2029 || u == 0x202f || u == 0x205f || u == 0x3000
}

/// The number of consecutive white space characters from position `i` on.
pub open spec fn space_run(s: Seq<char>, i: int) -> nat
    decreases s.len() - i,
{
    if 0 <= i < s.len() && is_white_space(s[i]) {
        1 + space_run(s, i + 1)
    } else {
        0
    }
}

/// The number of consecutive other characters from position `i` on.
pub open spec fn word_run(s: Seq<char>, i: int) -> nat
    decreases s.len() - i,
{
    if 0 <= i < s.len() && !is_white_space(s[i]) {
        1 + word_run(s, i + 1)
    } else {
        0
    }
}

/// The words of a string from position `i` on, as `str::split_whitespace`
/// gives them: the maximal runs of characters that are not white space.
pub open spec fn words_from(s: Seq<char>, i: int) -> Seq<Seq<char>>
    decreases s.len() - i,
{
    let j = i + space_run(s, i);
    let w = word_run(s, j);
    if i < 0 || j >= s.len() || w == 0 {
        Seq::empty()
    } else {
        proof {
            lemma_space_run_bound(s, i);
            lemma_word_run_bound(s, j);
        }
        seq![s.subrange(j, j + w)] + words_from(s, j + w)
    }
}

/// The first word from index `k` on that does not start with `-` (an
/// option rather than an operand).
pub open spec fn first_operand(words: Seq<Seq<char>>, k: int) -> Option<Seq<char>>
    decreases words.len() - k,
{
    if k < 0 || k >= words.len() {
        None
    } else if words[k].len() > 0 && words[k][0] == '-' {
        first_operand(words, k + 1)
    } else {
        Some(words[k])
    }
}

/// What `system` does with a command.
#[derive(Debug, PartialEq, Eq)]
pub enum SystemAction {
    /// Return this status without doing anything.
    Status(i32),
    /// Create this directory and its parents: the status is 0 where that
    /// succeeds and 1 where it fails.
    Mkdir(Vec<char>),
}

/// The spec of an action, for contracts.
pub enum SystemActionSpec {
    Status(i32),
    Mkdir(Seq<char>),
}

impl SystemAction {
    pub open spec fn model(self) -> SystemActionSpec {
        match self {
            SystemAction::Status(s) => SystemActionSpec::Status(s),
            SystemAction::Mkdir(p) => SystemActionSpec::Mkdir(p@),
        }
    }
}

/// The word `mkdir`.
pub open spec fn mkdir_word() -> Seq<char> {
    seq!['m', 'k', 'd', 'i', 'r']
}

/// What `system` does: a null command asks whether a shell exists (1: it
/// does); an empty command returns 0; `mkdir` creates its first operand, or
/// returns 1 where it has none; any other command returns 0.
pub open spec fn spec_system(cmd: Option<Seq<char>>) -> SystemActionSpec {
    match cmd {
        None => SystemActionSpec::Status(1),
        Some(s) => {
            let words = words_from(s, 0);
            if words.len() == 0 {
                SystemActionSpec::Status(0)
            } else if words[0] == mkdir_word() {
                match first_operand(words, 1) {
                    Some(path) => SystemActionSpec::Mkdir(path),
                    None => SystemActionSpec::Status(1),
                }
            } else {
                SystemActionSpec::Status(0)
            }
        },
    }
}

/// A run of white space stays within the string and ends before a
/// character that is not white space.
pub proof fn lemma_space_run_bound(s: Seq<char>, i: int)
    ensures
        i >= 0 ==> i + space_run(s, i) <= s.len() || space_run(s, i) == 0,
        i >= 0 && i + space_run(s, i) < s.len() ==> !is_white_space(s[i + space_run(s, i)]),
    decreases s.len() - i,
{
    if 0 <= i < s.len() && is_white_space(s[i]) {
        lemma_space_run_bound(s, i + 1);
    }
}

/// A word stays within the string.
pub proof fn lemma_word_run_bound(s: Seq<char>, i: int)
    ensures
        i >= 0 ==> i + word_run(s, i) <= s.len() || word_run(s, i) == 0,
    decreases s.len() - i,
{
    if 0 <= i < s.len() && !is_white_space(s[i]) {
        lemma_word_run_bound(s, i + 1);
    }
}

/// Finds the next word from position `i` on: its start and length, `None`
/// where only white space is left.
fn next_word(s: &[char], i: usize) -> (r: Option<(usize, usize)>)
    requires
        i <= s.len(),
    ensures
        match r {
            Some((j, w)) => {
                &&& j == i + space_run(s@, i as int)
                &&& w == word_run(s@, j as int)
                &&& j < s.len()
                &&& w > 0
                &&& j + w <= s.len()
            },
            None => i + space_run(s@, i as int) >= s.len() || word_run(
                s@,
                i + space_run(s@, i as int),
            ) == 0,
        },
{
    proof {
        lemma_space_run_bound(s@, i as int);
    }
    let mut j = i;
    while j < s.len() && is_whitespace(s[j])
        invariant
            i <= j <= s.len(),
            space_run(s@, i as int) == (j - i) + space_run(s@, j as int),
        decreases s.len() - j,
    {
        j = j + 1;
    }
    if j >= s.len() {
        return None;
    }
    proof {
        lemma_word_run_bound(s@, j as int);
    }
    let mut k = j;
    while k < s.len() && !is_whitespace(s[k])
        invariant
            j <= k <= s.len(),
            word_run(s@, j as int) == (k - j) + word_run(s@, k as int),
        decreases s.len() - k,
    {
        k = k + 1;
    }
    if k == j {
        return None;
    }
    Some((j, k - j))
}

fn is_mkdir(s: &[char], j: usize, w: usize) -> (r: bool)
    requires
        j + w <= s.len(),
    ensures
        r == (s@.subrange(j as int, (j + w) as int) == mkdir_word()),
{
    if w != 5 {
        proof {
            assert(s@.subrange(j as int, (j + w) as int).len() != mkdir_word().len());
        }
        return false;
    }
    let r = s[j] == 'm' && s[j + 1] == 'k' && s[j + 2] == 'd' && s[j + 3] == 'i' && s[j + 4]
        == 'r';
    proof {
        if r {
            assert(s@.subrange(j as int, (j + w) as int) =~= mkdir_word());
        } else {
            let t = s@.subrange(j as int, (j + w) as int);
            assert(t[0] == s@[j as int] && t[1] == s@[j + 1] && t[2] == s@[j + 2] && t[3] == s@[j
                + 3] && t[4] == s@[j + 4]);
        }
    }
    r
}

/// `system`: decides what a command does; `cmd` is the command's text, or
/// `None` for a null pointer (see `system_command` for a command given as
/// bytes).
pub fn system(cmd: Option<&[char]>) -> (r: SystemAction)
    ensures
        r.model() == spec_system(
            match cmd {
                Some(s) => Some(s@),
                None => None,
            },
        ),
{
    let s = match cmd {
        None => return SystemAction::Status(1),
        Some(s) => s,
    };
    let ghost words = words_from(s@, 0);
    let (j, w) = match next_word(s, 0) {
        None => {
            return SystemAction::Status(0);
        },
        Some(p) => p,
    };
    assert(words == seq![s@.subrange(j as int, (j + w) as int)] + words_from(s@, (j + w) as int));
    if !is_mkdir(s, j, w) {
        return SystemAction::Status(0);
    }
    let mut i = j + w;
    let mut k: Ghost<int> = Ghost(1);
    loop
        invariant
            cmd matches Some(c) && c@ == s@,
            i <= s.len(),
            1 <= k@ <= words.len(),
            words == words_from(s@, 0),
            words.len() >= 1,
            words[0] == mkdir_word(),
            first_operand(words, 1) == first_operand(words, k@),
            words.subrange(k@, words.len() as int) == words_from(s@, i as int),
        decreases s.len() - i,
    {
        proof {
            assert(words.subrange(k@, words.len() as int) == words_from(s@, i as int));
        }
        match next_word(s, i) {
            None => {
                proof {
                    assert(words_from(s@, i as int) =~= Seq::<Seq<char>>::empty());
                    assert(words.subrange(k@, words.len() as int).len() == 0);
                    assert(k@ == words.len());
                    assert(first_operand(words, k@) is None);
                }
                return SystemAction::Status(1);
            },
            Some((j2, w2)) => {
                let ghost word = s@.subrange(j2 as int, (j2 + w2) as int);
                proof {
                    assert(words_from(s@, i as int) == seq![word] + words_from(s@, (j2 + w2) as int));
                    assert(words_from(s@, i as int).len() >= 1);
                    assert(words.subrange(k@, words.len() as int).len() >= 1);
                    assert(k@ < words.len());
                    assert(words_from(s@, i as int)[0] == word);
                    assert(words[k@] == words.subrange(k@, words.len() as int)[0]);
                    assert(words[k@] == word);
                    assert(words.subrange(k@ + 1, words.len() as int) =~= words.subrange(
                        k@,
                        words.len() as int,
                    ).drop_first());
                }
                assert(word.len() > 0 && word[0] == s@[j2 as int]);
                if s[j2] != '-' {
                    assert(first_operand(words, k@) == Some(word));
                    let mut path: Vec<char> = Vec::new();
                    let mut t = j2;
                    while t < j2 + w2
                        invariant
                            j2 <= t <= j2 + w2,
                            j2 + w2 <= s.len(),
                            path@ == s@.subrange(j2 as int, t as int),
                        decreases j2 + w2 - t,
                    {
                        path.push(s[t]);
                        t = t + 1;
                        assert(path@ =~= s@.subrange(j2 as int, t as int));
                    }
                    return SystemAction::Mkdir(path);
                }
                proof {
                    k@ = k@ + 1;
                }
                i = j2 + w2;
            },
        }
    }
}

/// The text of a command given as a C string: its bytes decoded as UTF-8;
/// bytes that are not UTF-8 read as an empty command.
pub open spec fn command_text(s: Seq<u8>) -> Seq<char> {
    if valid_utf8(cstr_prefix(s)) {
        decode_utf8(cstr_prefix(s))
    } else {
        Seq::empty()
    }
}

/// `system` on the command as the guest passes it: a C string (its bytes,
/// NUL included), or `None` for a null pointer.
pub fn system_command(cmd: Option<&[u8]>) -> (r: SystemAction)
    ensures
        r.model() == spec_system(
            match cmd {
                Some(s) => Some(command_text(s@)),
                None => None,
            },
        ),
{
    match cmd {
        None => system(None),
        Some(s) => {
            let n = strlen(s);
            let text = &s[0..n];
            assert(text@ =~= cstr_prefix(s@));
            let chars: Vec<char> = if is_valid_utf8(text) {
                decode_utf8_chars(text)
            } else {
                Vec::new()
            };
            assert(chars@ =~= command_text(s@));
            system(Some(chars.as_slice()))
        },
    }
}

/// Whether a word is a run of characters that are not white space.
pub open spec fn is_word(w: Seq<char>) -> bool {
    w.len() > 0 && forall|i: int| 0 <= i < w.len() ==> !is_white_space(#[trigger] w[i])
}

proof fn lemma_word_run_chars(s: Seq<char>, j: int, k: int)
    requires
        0 <= j,
        0 <= k < word_run(s, j),
    ensures
        j + k < s.len(),
        !is_white_space(s[j + k]),
    decreases k,
{
    if k > 0 {
        lemma_word_run_chars(s, j + 1, k - 1);
    }
}

proof fn lemma_words_are_words(s: Seq<char>, i: int)
    ensures
        forall|k: int| 0 <= k < words_from(s, i).len() ==> is_word(#[trigger] words_from(s, i)[k]),
    decreases s.len() - i,
{
    let j = i + space_run(s, i);
    let w = word_run(s, j);
    if !(i < 0 || j >= s.len() || w == 0) {
        lemma_space_run_bound(s, i);
        lemma_word_run_bound(s, j);
        lemma_words_are_words(s, j + w);
        let first = s.subrange(j, j + w);
        assert forall|m: int| 0 <= m < first.len() implies !is_white_space(#[trigger] first[m]) by {
            lemma_word_run_chars(s, j, m);
        }
        let ws = words_from(s, i);
        assert(ws == seq![first] + words_from(s, j + w));
        assert forall|k: int| 0 <= k < ws.len() implies is_word(#[trigger] ws[k]) by {
            if k > 0 {
                assert(ws[k] == words_from(s, j + w)[k - 1]);
            }
        }
    }
}

proof fn lemma_first_operand_is_operand(words: Seq<Seq<char>>, k: int)
    requires
        forall|m: int| 0 <= m < words.len() ==> is_word(#[trigger] words[m]),
    ensures
        first_operand(words, k) matches Some(w) ==> is_word(w) && w[0] != '-',
    decreases words.len() - k,
{
    if 0 <= k < words.len() && words[k].len() > 0 && words[k][0] == '-' {
        lemma_first_operand_is_operand(words, k + 1);
    }
    if 0 <= k < words.len() {
        assert(is_word(words[k]));
    }
}

/// The directory that `system` creates is a single word of the command (no
/// white space in it, at least one character) and not an option (it does
/// not start with `-`).
pub proof fn lemma_mkdir_path_is_operand(cmd: Seq<char>)
    ensures
        spec_system(Some(cmd)) matches SystemActionSpec::Mkdir(path) ==> path.len() > 0
            && path[0] != '-' && forall|i: int| 0 <= i < path.len() ==> !is_white_space(
            #[trigger] path[i],
        ),
{
    lemma_words_are_words(cmd, 0);
    lemma_first_operand_is_operand(words_from(cmd, 0), 1);
}

/// A null command reports that a shell exists; a command whose bytes are
/// not UTF-8, or that holds only white space, does nothing and returns 0.
pub proof fn lemma_system_empty_commands(bytes: Seq<u8>, blank: Seq<char>)
    requires
        forall|i: int| 0 <= i < blank.len() ==> is_white_space(#[trigger] blank[i]),
    ensures
        spec_system(None) == SystemActionSpec::Status(1),
        !valid_utf8(cstr_prefix(bytes)) ==> spec_system(Some(command_text(bytes)))
            == SystemActionSpec::Status(0),
        spec_system(Some(blank)) == SystemActionSpec::Status(0),
{
    lemma_blank_has_no_words(blank, 0);
    assert(words_from(Seq::<char>::empty(), 0).len() == 0);
}

proof fn lemma_blank_has_no_words(blank: Seq<char>, i: int)
    requires
        forall|k: int| 0 <= k < blank.len() ==> is_white_space(#[trigger] blank[k]),
        0 <= i,
    ensures
        i + space_run(blank, i) >= blank.len(),
        words_from(blank, i).len() == 0,
    decreases blank.len() - i,
{
    if i < blank.len() {
        lemma_blank_has_no_words(blank, i + 1);
    }
}

/// The status `system` returns once `mkdir` has run: 0 where it succeeded,
/// 1 where it failed.
pub fn mkdir_status(created: bool) -> (r: i32)
    ensures
        r == (if created { 0i32 } else { 1i32 }),
{
    if created {
        0
    } else {
        1
    }
}

} // verus!
