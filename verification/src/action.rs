//! Action strings: a fired rule's action is split on `:`; the prefix picks
//! the handler. `exit:<code>` terminates the process with the given code
//! (zero when the code is absent or malformed); `exec:<path>:<args...>`
//! spawns `./<path>`; anything else is ignored.

use vstd::prelude::*;
use vstd::string::*;

verus! {

// --- splitting on ':' ---

/// Index of the first ':' in `s`, or `s.len()` when there is none.
pub open spec fn colon_index(s: Seq<char>) -> nat
    decreases s.len(),
{
    if s.len() == 0 {
        0
    } else if s[0] == ':' {
        0
    } else {
        1 + colon_index(s.skip(1))
    }
}

pub proof fn lemma_colon_index(s: Seq<char>)
    ensures
        colon_index(s) <= s.len(),
        colon_index(s) < s.len() ==> s[colon_index(s) as int] == ':',
        forall|j: int| 0 <= j < colon_index(s) ==> s[j] != ':',
    decreases s.len(),
{
    if s.len() == 0 {
    } else if s[0] == ':' {
    } else {
        lemma_colon_index(s.skip(1));
        assert forall|j: int| 0 <= j < colon_index(s) implies s[j] != ':' by {
            if j >= 1 {
                assert(s.skip(1)[j - 1] == s[j]);
            }
        }
    }
}

/// The segments of `s` between its ':' separators, in order; `s` itself
/// when it has none.
pub open spec fn split_colon(s: Seq<char>) -> Seq<Seq<char>>
    decreases s.len(),
{
    let i = colon_index(s);
    if i >= s.len() {
        seq![s]
    } else {
        seq![s.take(i as int)] + split_colon(s.skip(i as int + 1))
    }
}

pub proof fn lemma_split_colon_len(s: Seq<char>)
    ensures
        split_colon(s).len() >= 1,
    decreases s.len(),
{
}

/// Find the first ':' in `s`, or its length when there is none.
pub fn find_colon(s: &str) -> (i: usize)
    ensures
        i as nat == colon_index(s@),
{
    let n = s.unicode_len();
    let mut k: usize = 0;
    while k < n
        invariant
            k <= n,
            n == s@.len(),
            forall|j: int| 0 <= j < k as int ==> s@[j] != ':',
        decreases n - k,
    {
        if s.get_char(k) == ':' {
            proof {
                lemma_colon_index(s@);
                if colon_index(s@) < k as nat {
                    assert(s@[colon_index(s@) as int] == ':');
                }
            }
            return k;
        }
        k = k + 1;
    }
    proof {
        lemma_colon_index(s@);
        if colon_index(s@) < s@.len() {
            assert(s@[colon_index(s@) as int] == ':');
        }
    }
    n
}

/// Split `s` on ':'.
pub fn split_colon_str(s: &str) -> (parts: Vec<String>)
    ensures
        parts@.len() == split_colon(s@).len(),
        forall|k: int| 0 <= k < parts@.len() ==> (#[trigger] parts@[k])@ == split_colon(s@)[k],
{
    let mut parts: Vec<String> = Vec::new();
    let mut rest: &str = s;
    loop
        invariant_except_break
            parts@.len() + split_colon(rest@).len() == split_colon(s@).len(),
            forall|k: int|
                0 <= k < parts@.len() ==> (#[trigger] parts@[k])@ == split_colon(s@)[k],
            forall|k: int|
                0 <= k < split_colon(rest@).len() ==> #[trigger] split_colon(rest@)[k]
                    == split_colon(s@)[parts@.len() + k],
        ensures
            parts@.len() == split_colon(s@).len(),
            forall|k: int|
                0 <= k < parts@.len() ==> (#[trigger] parts@[k])@ == split_colon(s@)[k],
        decreases rest@.len(),
    {
        let ghost prev = rest@;
        let n = rest.unicode_len();
        let i = find_colon(rest);
        proof {
            lemma_colon_index(prev);
        }
        if i >= n {
            // No separator left: the remainder is the final segment.
            proof {
                assert(split_colon(prev) == seq![prev]);
                assert(split_colon(prev)[0] == prev);
            }
            parts.push(rest.to_owned());
            break;
        }
        let head = rest.substring_char(0, i);
        parts.push(head.to_owned());
        rest = rest.substring_char(i + 1, n);
        proof {
            assert(head@ =~= prev.take(i as int));
            assert(rest@ =~= prev.skip(i + 1));
            assert(split_colon(prev) == seq![prev.take(i as int)] + split_colon(
                prev.skip(i + 1),
            ));
            assert(split_colon(prev)[0] == prev.take(i as int));
            assert forall|k: int| 0 <= k < split_colon(rest@).len() implies #[trigger] split_colon(
                rest@,
            )[k] == split_colon(s@)[parts@.len() + k] by {
                assert(split_colon(prev)[k + 1] == split_colon(rest@)[k]);
            }
        }
    }
    parts
}

// --- decimal i32 parsing ---

/// `c` is one of '0' through '9'.
pub open spec fn is_dec_digit(c: char) -> bool {
    48 <= c as int <= 57
}

pub open spec fn all_digits(s: Seq<char>) -> bool {
    forall|k: int| 0 <= k < s.len() ==> is_dec_digit(#[trigger] s[k])
}

/// The number written by a digit sequence, most significant first.
pub open spec fn digits_value(s: Seq<char>) -> int
    decreases s.len(),
{
    if s.len() == 0 {
        0
    } else {
        digits_value(s.drop_last()) * 10 + (s.last() as int - 48)
    }
}

pub proof fn lemma_digits_value_nonneg(s: Seq<char>)
    requires
        all_digits(s),
    ensures
        digits_value(s) >= 0,
    decreases s.len(),
{
    if s.len() > 0 {
        lemma_digits_value_nonneg(s.drop_last());
    }
}

/// A digit prefix never exceeds the whole number.
pub proof fn lemma_digits_value_prefix(s: Seq<char>, k: int)
    requires
        all_digits(s),
        0 <= k <= s.len(),
    ensures
        digits_value(s.take(k)) <= digits_value(s),
    decreases s.len(),
{
    if k == s.len() {
        assert(s.take(k) =~= s);
    } else {
        assert(s.take(k) =~= s.drop_last().take(k));
        lemma_digits_value_prefix(s.drop_last(), k);
        lemma_digits_value_nonneg(s.drop_last());
    }
}

/// What `str::parse::<i32>` accepts: an optional sign and at least one
/// digit, the value within i32's range.
pub open spec fn parse_i32_spec(s: Seq<char>) -> Option<int> {
    let negative = s.len() > 0 && s[0] == '-';
    let signed = s.len() > 0 && (s[0] == '-' || s[0] == '+');
    let body = if signed {
        s.skip(1)
    } else {
        s
    };
    if body.len() == 0 || !all_digits(body) {
        None
    } else {
        let v = if negative {
            -digits_value(body)
        } else {
            digits_value(body)
        };
        if i32::MIN as int <= v <= i32::MAX as int {
            Some(v)
        } else {
            None
        }
    }
}

/// Parse a decimal i32, exactly as the standard parser accepts one.
pub fn parse_i32(s: &str) -> (r: Option<i32>)
    ensures
        match r {
            Some(v) => parse_i32_spec(s@) == Some(v as int),
            None => parse_i32_spec(s@) is None,
        },
{
    let n = s.unicode_len();
    let mut start: usize = 0;
    let mut negative = false;
    if n > 0 {
        let c0 = s.get_char(0);
        if c0 == '-' {
            negative = true;
            start = 1;
        } else if c0 == '+' {
            start = 1;
        }
    }
    let ghost body = if start == 1 {
        s@.skip(1)
    } else {
        s@
    };
    if start >= n {
        // Empty input or a bare sign.
        return None;
    }

    let mut acc: u64 = 0;
    let mut k: usize = start;
    while k < n
        invariant
            start <= k <= n,
            n == s@.len(),
            start == 0 || start == 1,
            negative == (s@.len() > 0 && s@[0] == '-'),
            (start == 1) == (s@.len() > 0 && (s@[0] == '-' || s@[0] == '+')),
            body == if start == 1 {
                s@.skip(1)
            } else {
                s@
            },
            body.len() == n - start,
            forall|j: int| 0 <= j < k - start ==> is_dec_digit(#[trigger] body[j]),
            acc as int == digits_value(body.take(k - start)),
            acc <= 0x8000_0000,
        decreases n - k,
    {
        let c = s.get_char(k);
        proof {
            assert(body[k - start] == s@[k as int]);
        }
        let cv = c as u32;
        proof {
            assert(cv as int == c as int);
        }
        if cv < 48 || cv > 57 {
            proof {
                assert(!is_dec_digit(body[k - start]));
            }
            return None;
        }
        let d = (cv - 48) as u64;
        proof {
            assert(body.take(k + 1 - start).drop_last() =~= body.take(k - start));
            assert(body.take(k + 1 - start).last() == body[k - start]);
            assert(digits_value(body.take(k + 1 - start)) == acc as int * 10 + d as int);
        }
        acc = acc * 10 + d;
        k = k + 1;
        if acc > 0x8000_0000 {
            // Too many significant digits: whatever follows, the value is
            // out of range or malformed.
            proof {
                assert(acc as int == digits_value(body.take(k - start)));
                if all_digits(body) {
                    lemma_digits_value_prefix(body, k - start);
                    lemma_digits_value_nonneg(body);
                }
            }
            return None;
        }
    }
    proof {
        assert(body.take(n - start) =~= body);
    }
    if negative {
        Some((-(acc as i64)) as i32)
    } else {
        if acc > 0x7fff_ffff {
            return None;
        }
        Some(acc as i32)
    }
}

// --- actions ---

/// What a fired rule does, decoded from its action string.
pub enum Action {
    /// Terminate the process with this exit code.
    Exit(i32),
    /// Spawn `program` with `args`, non-blocking.
    Spawn { program: String, args: Vec<String> },
    /// Unrecognized: log and ignore.
    Ignore,
}

/// The mathematical shape of an [`Action`].
pub enum ActionView {
    Exit(i32),
    Spawn { program: Seq<char>, args: Seq<Seq<char>> },
    Ignore,
}

impl View for Action {
    type V = ActionView;

    open spec fn view(&self) -> ActionView {
        match self {
            Action::Exit(code) => ActionView::Exit(*code),
            Action::Spawn { program, args } => ActionView::Spawn {
                program: program@,
                args: args@.map_values(|a: String| a@),
            },
            Action::Ignore => ActionView::Ignore,
        }
    }
}

/// The exit code of an `exit` action: the segment after the prefix, parsed
/// as i32; zero when absent or malformed.
pub open spec fn exit_code_spec(parts: Seq<Seq<char>>) -> int {
    if parts.len() >= 2 {
        match parse_i32_spec(parts[1]) {
            Some(v) => v,
            None => 0,
        }
    } else {
        0
    }
}

/// The action an action string denotes.
pub open spec fn parse_action_spec(s: Seq<char>) -> ActionView {
    let parts = split_colon(s);
    if parts[0] == "exit"@ {
        ActionView::Exit(exit_code_spec(parts) as i32)
    } else if parts[0] == "exec"@ && parts.len() >= 2 {
        ActionView::Spawn { program: "./"@ + parts[1], args: parts.skip(2) }
    } else {
        ActionView::Ignore
    }
}

/// Decode an action string.
pub fn parse_action(action: &str) -> (a: Action)
    ensures
        a@ == parse_action_spec(action@),
{
    proof {
        lemma_split_colon_len(action@);
    }
    let parts = split_colon_str(action);
    let exit_word: String = "exit".to_owned();
    let exec_word: String = "exec".to_owned();
    if parts[0] == exit_word {
        let code: i32 = if parts.len() >= 2 {
            match parse_i32(parts[1].as_str()) {
                Some(v) => v,
                None => 0,
            }
        } else {
            0
        };
        Action::Exit(code)
    } else if parts[0] == exec_word && parts.len() >= 2 {
        let program = "./".to_owned().concat(parts[1].as_str());
        let mut args: Vec<String> = Vec::new();
        let mut k: usize = 2;
        while k < parts.len()
            invariant
                2 <= k <= parts@.len(),
                args@.len() == k - 2,
                forall|j: int| 0 <= j < args@.len() ==> (#[trigger] args@[j])@ == parts@[j + 2]@,
            decreases parts@.len() - k,
        {
            args.push(parts[k].clone());
            k = k + 1;
        }
        let a = Action::Spawn { program, args };
        proof {
            let spec_args = split_colon(action@).skip(2);
            assert(args@.map_values(|x: String| x@) =~= spec_args);
        }
        a
    } else {
        Action::Ignore
    }
}

} // verus!
