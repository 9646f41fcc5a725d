//! Command-line flag parsing and the arcana morph rule.
//!
//! The shell passes its raw argument list here; which value a flag
//! carries, which defaults apply, and how experience transfers between
//! arcana are all verified decisions.

use vstd::prelude::*;
use vstd::string::StringExecFns;

verus! {

/// The value following the first occurrence of `flag` in the argument
/// list, if any.
pub open spec fn flag_lookup(args: Seq<String>, flag: Seq<char>) -> Option<Seq<char>>
    decreases args.len(),
{
    if args.len() < 2 {
        None
    } else if args[0]@ == flag {
        Some(args[1]@)
    } else {
        flag_lookup(args.skip(1), flag)
    }
}

/// Finds the value of `flag` in the argument list.
fn lookup_flag(args: &Vec<String>, flag: &str) -> (r: Option<String>)
    ensures
        match r {
            Some(v) => flag_lookup(args@, flag@) == Some(v@),
            None => flag_lookup(args@, flag@) is None,
        },
{
    let key = flag.to_owned();
    let n = args.len();
    let mut i: usize = 0;
    proof {
        assert(args@.skip(0) =~= args@);
    }
    while n - i > 1
        invariant
            i <= n,
            n == args@.len(),
            key@ == flag@,
            flag_lookup(args@, flag@) == flag_lookup(args@.skip(i as int), flag@),
        decreases n - i,
    {
        proof {
            assert(args@.skip(i as int)[0] == args@[i as int]);
            assert(args@.skip(i as int)[1] == args@[i as int + 1]);
            assert(args@.skip(i as int).skip(1) =~= args@.skip(i as int + 1));
        }
        if args[i].eq(&key) {
            return Some(args[i + 1].clone());
        }
        i = i + 1;
    }
    None
}

/// The value of `flag`, or the empty string when the flag is absent.
pub fn get_flag(args: &Vec<String>, flag: &str) -> (r: String)
    ensures
        r@ == match flag_lookup(args@, flag@) {
            Some(v) => v,
            None => Seq::<char>::empty(),
        },
{
    match lookup_flag(args, flag) {
        Some(v) => v,
        None => String::new(),
    }
}

/// The value of `flag`, or `default` when the flag is absent.
pub fn get_flag_default(args: &Vec<String>, flag: &str, default: &str) -> (r: String)
    ensures
        r@ == match flag_lookup(args@, flag@) {
            Some(v) => v,
            None => default@,
        },
{
    match lookup_flag(args, flag) {
        Some(v) => v,
        None => default.to_owned(),
    }
}

/// One row of the arcana reference table, passed in by the caller:
/// static reference data, never a hidden global.
pub struct ArcanaEntry {
    pub name: String,
    pub card: String,
    pub power: String,
}

/// The outcome of an arcana morph: the two table positions and the
/// experience carried over.
#[derive(Clone, Copy, Debug, PartialEq, Eq, Structural)]
pub struct MorphOutcome {
    pub from_id: usize,
    pub to_id: usize,
    pub xp: usize,
}

/// The smaller of two integers.
pub open spec fn min_int(a: int, b: int) -> int {
    if a < b {
        a
    } else {
        b
    }
}

/// Computes an arcana morph over the given table: the source position is
/// the first row named `from` (0 when absent), the target position the
/// first row named `to` (1 when absent), and the transferred experience
/// is the source position scaled by the golden ratio (fixed-point,
/// `* 1618 / 1000`), capped at 999.
pub fn morph_xp(table: &Vec<ArcanaEntry>, from: &str, to: &str) -> (r: MorphOutcome)
    requires
        table@.len() <= 100000,
    ensures
        (exists|i: int| 0 <= i < table@.len() && (#[trigger] table@[i]).name@ == from@) ==> {
            &&& r.from_id < table@.len()
            &&& table@[r.from_id as int].name@ == from@
            &&& forall|j: int| 0 <= j < r.from_id ==> (#[trigger] table@[j]).name@ != from@
        },
        (forall|i: int| 0 <= i < table@.len() ==> (#[trigger] table@[i]).name@ != from@)
            ==> r.from_id == 0,
        (exists|i: int| 0 <= i < table@.len() && (#[trigger] table@[i]).name@ == to@) ==> {
            &&& r.to_id < table@.len()
            &&& table@[r.to_id as int].name@ == to@
            &&& forall|j: int| 0 <= j < r.to_id ==> (#[trigger] table@[j]).name@ != to@
        },
        (forall|i: int| 0 <= i < table@.len() ==> (#[trigger] table@[i]).name@ != to@) ==> r.to_id
            == 1,
        r.xp == min_int(r.from_id as int * 1618 / 1000, 999),
{
    let from_id = position_or(table, from, 0);
    let to_id = position_or(table, to, 1);
    let scaled: usize = from_id * 1618 / 1000;
    let xp: usize = if scaled < 999 {
        scaled
    } else {
        999
    };
    MorphOutcome { from_id, to_id, xp }
}

/// The position of the first row named `name`, or `default` when none
/// matches.
fn position_or(table: &Vec<ArcanaEntry>, name: &str, default: usize) -> (r: usize)
    ensures
        (exists|i: int| 0 <= i < table@.len() && (#[trigger] table@[i]).name@ == name@) ==> {
            &&& r < table@.len()
            &&& table@[r as int].name@ == name@
            &&& forall|j: int| 0 <= j < r ==> (#[trigger] table@[j]).name@ != name@
        },
        (forall|i: int| 0 <= i < table@.len() ==> (#[trigger] table@[i]).name@ != name@) ==> r
            == default,
{
    let key = name.to_owned();
    let n = table.len();
    let mut i: usize = 0;
    while i < n
        invariant
            i <= n,
            n == table@.len(),
            key@ == name@,
            forall|j: int| 0 <= j < i ==> (#[trigger] table@[j]).name@ != name@,
        decreases n - i,
    {
        if table[i].name.eq(&key) {
            return i;
        }
        i = i + 1;
    }
    default
}

/// Whether a character is line-local ASCII whitespace.
pub open spec fn is_blank_char(c: char) -> bool {
    c == ' ' || c == '\t' || c == '\r'
}

/// The first position at or after `k` that starts a quote line: a `>`
/// at the start of the text or right after a newline.
pub open spec fn quote_start_from(s: Seq<char>, k: int) -> Option<int>
    decreases s.len() - k,
{
    if k < 0 || k >= s.len() {
        None
    } else if s[k] == '>' && (k == 0 || s[k - 1] == '\n') {
        Some(k)
    } else {
        quote_start_from(s, k + 1)
    }
}

/// The end of the line starting at or after `k`: the first newline, or
/// the end of the text.
pub open spec fn line_end_from(s: Seq<char>, k: int) -> int
    decreases s.len() - k,
{
    if k < 0 || k >= s.len() {
        s.len() as int
    } else if s[k] == '\n' {
        k
    } else {
        line_end_from(s, k + 1)
    }
}

/// Skips the leading `>` markers of a quote line.
pub open spec fn past_markers(s: Seq<char>, k: int, e: int) -> int
    decreases e - k,
{
    if k < e && 0 <= k < s.len() && s[k] == '>' {
        past_markers(s, k + 1, e)
    } else {
        k
    }
}

/// Skips leading whitespace.
pub open spec fn past_blanks(s: Seq<char>, k: int, e: int) -> int
    decreases e - k,
{
    if k < e && 0 <= k < s.len() && is_blank_char(s[k]) {
        past_blanks(s, k + 1, e)
    } else {
        k
    }
}

/// Drops trailing whitespace.
pub open spec fn before_blanks(s: Seq<char>, a: int, e: int) -> int
    decreases e - a,
{
    if a < e && 0 <= e - 1 < s.len() && is_blank_char(s[e - 1]) {
        before_blanks(s, a, e - 1)
    } else {
        e
    }
}

/// The span of the first annotated quote of a text: the first line that
/// starts with `>`, with its leading markers and surrounding whitespace
/// stripped.
pub open spec fn quote_span(s: Seq<char>) -> Option<(int, int)> {
    match quote_start_from(s, 0) {
        None => None,
        Some(i) => {
            let e = line_end_from(s, i);
            let a = past_blanks(s, past_markers(s, i, e), e);
            Some((a, before_blanks(s, a, e)))
        },
    }
}

/// Picks the first annotated quote line out of a text: the line content
/// after the leading `>` markers, trimmed of whitespace.  Nothing when
/// no line starts with `>`.
pub fn pick_quote(text: &str) -> (r: Option<String>)
    ensures
        match r {
            Some(q) => quote_span(text@) matches Some(span) && q@ == text@.subrange(
                span.0,
                span.1,
            ),
            None => quote_span(text@) is None,
        },
{
    let n = text.unicode_len();
    let mut i: usize = 0;
    let mut found = false;
    while i < n && !found
        invariant
            i <= n,
            n == text@.len(),
            quote_start_from(text@, 0) == quote_start_from(text@, i as int),
            found ==> i < n && text@[i as int] == '>' && (i == 0 || text@[i as int - 1] == '\n'),
            !found && i < n ==> quote_start_from(text@, i as int) == quote_start_from(
                text@,
                i as int,
            ),
        decreases n - i, (if found { 0int } else { 1int }),
    {
        let c = text.get_char(i);
        let at_line_start = i == 0 || text.get_char(i - 1) == '\n';
        if c == '>' && at_line_start {
            found = true;
        } else {
            i = i + 1;
        }
    }
    if !found {
        return None;
    }
    let start = i;
    // The end of the quote line.
    let mut e: usize = start;
    while e < n && text.get_char(e) != '\n'
        invariant
            start <= e <= n,
            n == text@.len(),
            line_end_from(text@, start as int) == line_end_from(text@, e as int),
            forall|k: int| start <= k < e ==> text@[k] != '\n',
        decreases n - e,
    {
        e = e + 1;
    }
    proof {
        assert(line_end_from(text@, e as int) == e);
    }
    // Past the > markers.
    let mut a: usize = start;
    while a < e && text.get_char(a) == '>'
        invariant
            start <= a <= e,
            e <= n,
            n == text@.len(),
            past_markers(text@, start as int, e as int) == past_markers(text@, a as int, e as int),
        decreases e - a,
    {
        a = a + 1;
    }
    proof {
        assert(past_markers(text@, a as int, e as int) == a);
    }
    // Past the leading whitespace.
    while a < e && (text.get_char(a) == ' ' || text.get_char(a) == '\t' || text.get_char(a)
        == '\r')
        invariant
            a <= e,
            e <= n,
            n == text@.len(),
            past_blanks(text@, past_markers(text@, start as int, e as int), e as int)
                == past_blanks(text@, a as int, e as int),
        decreases e - a,
    {
        a = a + 1;
    }
    proof {
        assert(past_blanks(text@, a as int, e as int) == a);
    }
    // Before the trailing whitespace.
    let mut b: usize = e;
    while b > a && (text.get_char(b - 1) == ' ' || text.get_char(b - 1) == '\t' || text.get_char(
        b - 1,
    ) == '\r')
        invariant
            a <= b <= e,
            e <= n,
            n == text@.len(),
            before_blanks(text@, a as int, e as int) == before_blanks(text@, a as int, b as int),
        decreases b - a,
    {
        b = b - 1;
    }
    proof {
        assert(before_blanks(text@, a as int, b as int) == b);
    }
    Some(text.substring_char(a, b).to_owned())
}

} // verus!
