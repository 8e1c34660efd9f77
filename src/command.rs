use vstd::prelude::*;
use vstd::string::StrSliceExecFns;
use vstd::string::StringSliceAdditionalSpecFns;

verus! {

/// ASCII whitespace: space, tab, line feed, form feed, carriage return
pub open spec fn is_space(b: u8) -> bool {
    b == 32 || b == 9 || b == 10 || b == 12 || b == 13
}

/// Words completed so far and the word being read, after scanning `s`
pub open spec fn split_state(s: Seq<u8>) -> (Seq<Seq<u8>>, Seq<u8>)
    decreases s.len(),
{
    if s.len() == 0 {
        (seq![], seq![])
    } else {
        let (ws, cur) = split_state(s.drop_last());
        if is_space(s.last()) {
            if cur.len() > 0 { (ws.push(cur), seq![]) } else { (ws, seq![]) }
        } else {
            (ws, cur.push(s.last()))
        }
    }
}

/// The non-empty runs of non-whitespace bytes of `s`, in order
pub open spec fn words(s: Seq<u8>) -> Seq<Seq<u8>> {
    let (ws, cur) = split_state(s);
    if cur.len() > 0 { ws.push(cur) } else { ws }
}

/// Value of a sequence of decimal digits
pub open spec fn digits_value(s: Seq<u8>) -> nat
    decreases s.len(),
{
    if s.len() == 0 {
        0
    } else {
        digits_value(s.drop_last()) * 10 + (s.last() - 48) as nat
    }
}

pub open spec fn all_digits(s: Seq<u8>) -> bool {
    forall|i: int| 0 <= i < s.len() ==> 48 <= #[trigger] s[i] <= 57
}

/// A word without its optional leading `+`
pub open spec fn unsigned_body(w: Seq<u8>) -> Seq<u8> {
    if w.len() > 0 && w[0] == 43u8 { w.drop_first() } else { w }
}

/// The non-negative integer a word spells: an optional `+`, then decimal digits whose
/// value fits in a `usize`
pub open spec fn number_spec(w: Seq<u8>) -> Option<usize> {
    let b = unsigned_body(w);
    if b.len() > 0 && all_digits(b) && digits_value(b) <= usize::MAX {
        Some(digits_value(b) as usize)
    } else {
        None
    }
}

/// The numbers among the words, in order; other words are dropped
pub open spec fn numbers(ws: Seq<Seq<u8>>) -> Seq<usize>
    decreases ws.len(),
{
    if ws.len() == 0 {
        seq![]
    } else {
        match number_spec(ws.last()) {
            Some(n) => numbers(ws.drop_last()).push(n),
            None => numbers(ws.drop_last()),
        }
    }
}

/// ASCII lower case
pub open spec fn lower(s: Seq<u8>) -> Seq<u8> {
    s.map_values(|b: u8| if 65 <= b <= 90 { (b + 32) as u8 } else { b })
}

/// The commands of the game
#[derive(Clone, Copy, PartialEq, Eq, Structural, Debug)]
pub enum Command {
    Help,
    Move,
    Laser,
    Torpedo,
    Shields,
    Scan,
    Survey,
    Investigate,
    Dock,
    Log,
    Quit,
    Unknown,
}

/// The command a word names, in any case, by full name or alias
pub open spec fn command_spec(w: Seq<u8>) -> Command {
    let l = lower(w);
    if l == "help".spec_bytes() || l == "h".spec_bytes() {
        Command::Help
    } else if l == "move".spec_bytes() || l == "m".spec_bytes() {
        Command::Move
    } else if l == "laser".spec_bytes() || l == "l".spec_bytes() {
        Command::Laser
    } else if l == "torpedo".spec_bytes() || l == "t".spec_bytes() {
        Command::Torpedo
    } else if l == "shields".spec_bytes() || l == "sh".spec_bytes() {
        Command::Shields
    } else if l == "scan".spec_bytes() || l == "sc".spec_bytes() {
        Command::Scan
    } else if l == "survey".spec_bytes() || l == "su".spec_bytes() {
        Command::Survey
    } else if l == "investigate".spec_bytes() || l == "i".spec_bytes() {
        Command::Investigate
    } else if l == "dock".spec_bytes() || l == "d".spec_bytes() {
        Command::Dock
    } else if l == "log".spec_bytes() {
        Command::Log
    } else if l == "quit".spec_bytes() || l == "q".spec_bytes() {
        Command::Quit
    } else {
        Command::Unknown
    }
}

/// A command name means the same in any case: two words that agree once lower-cased name
/// the same command.
pub proof fn lemma_command_ignores_case(w1: Seq<u8>, w2: Seq<u8>)
    requires
        lower(w1) == lower(w2),
    ensures
        command_spec(w1) == command_spec(w2),
{
}

/// Splits a command line into its words
pub fn split_words(s: &[u8]) -> (r: Vec<Vec<u8>>)
    ensures
        r@.len() == words(s@).len(),
        forall|k: int| 0 <= k < r@.len() ==> (#[trigger] r@[k])@ == words(s@)[k],
{
    let mut ws: Vec<Vec<u8>> = Vec::new();
    let mut cur: Vec<u8> = Vec::new();
    let mut i: usize = 0;
    while i < s.len()
        invariant
            i <= s@.len(),
            split_state(s@.subrange(0, i as int)).0.len() == ws@.len(),
            forall|k: int| 0 <= k < ws@.len() ==> (#[trigger] ws@[k])@ == split_state(s@.subrange(0, i as int)).0[k],
            split_state(s@.subrange(0, i as int)).1 == cur@,
        decreases s@.len() - i,
    {
        assert(s@.subrange(0, i + 1).drop_last() =~= s@.subrange(0, i as int));
        let c = s[i];
        if c == 32u8 || c == 9u8 || c == 10u8 || c == 12u8 || c == 13u8 {
            if cur.len() > 0 {
                ws.push(cur);
                cur = Vec::new();
            }
        } else {
            cur.push(c);
        }
        i = i + 1;
    }
    assert(s@.subrange(0, i as int) =~= s@);
    if cur.len() > 0 {
        ws.push(cur);
    }
    ws
}

pub proof fn lemma_digits_value_grows(b: Seq<u8>, k: int)
    requires
        0 <= k <= b.len(),
    ensures
        digits_value(b.subrange(0, k)) <= digits_value(b),
    decreases b.len(),
{
    if k < b.len() {
        assert(b.drop_last().subrange(0, k) =~= b.subrange(0, k));
        lemma_digits_value_grows(b.drop_last(), k);
    } else {
        assert(b.subrange(0, k) =~= b);
    }
}

/// The non-negative integer a word spells, if any
pub fn parse_number(w: &[u8]) -> (r: Option<usize>)
    ensures
        r == number_spec(w@),
{
    let start: usize = if w.len() > 0 && w[0] == 43u8 { 1 } else { 0 };
    let ghost body = unsigned_body(w@);
    assert(body =~= w@.subrange(start as int, w@.len() as int));
    if start >= w.len() {
        return None;
    }
    let mut v: usize = 0;
    let mut k: usize = start;
    while k < w.len()
        invariant
            start <= k <= w@.len(),
            body == w@.subrange(start as int, w@.len() as int),
            body == unsigned_body(w@),
            all_digits(body.subrange(0, k - start)),
            v == digits_value(body.subrange(0, k - start)),
        decreases w@.len() - k,
    {
        let ghost prefix = body.subrange(0, k + 1 - start);
        assert(prefix.drop_last() =~= body.subrange(0, k - start));
        let c = w[k];
        if c < 48u8 || c > 57u8 {
            assert(body[k - start] == c);
            assert(!all_digits(body));
            return None;
        }
        let d: usize = (c - 48u8) as usize;
        let m = v.checked_mul(10);
        match m {
            Some(m) => {
                match m.checked_add(d) {
                    Some(n) => {
                        v = n;
                    },
                    None => {
                        proof {
                            assert(prefix.last() == c);
                            assert(digits_value(prefix) == v * 10 + d);
                            lemma_digits_value_grows(body, k + 1 - start);
                        }
                        return None;
                    },
                }
            },
            None => {
                proof {
                    lemma_digits_value_grows(body, k + 1 - start);
                }
                return None;
            },
        }
        k = k + 1;
        assert(all_digits(body.subrange(0, k - start)));
    }
    assert(body.subrange(0, k - start) =~= body);
    Some(v)
}

/// The numbers among the words of a command line
pub fn numeric_args(ws: &Vec<Vec<u8>>) -> (r: Vec<usize>)
    ensures
        r@ == numbers(ws@.map_values(|w: Vec<u8>| w@)),
{
    let ghost views = ws@.map_values(|w: Vec<u8>| w@);
    let mut r: Vec<usize> = Vec::new();
    let mut k: usize = 0;
    while k < ws.len()
        invariant
            k <= ws@.len(),
            views == ws@.map_values(|w: Vec<u8>| w@),
            r@ == numbers(views.subrange(0, k as int)),
        decreases ws@.len() - k,
    {
        assert(views.subrange(0, k + 1).drop_last() =~= views.subrange(0, k as int));
        if let Some(n) = parse_number(ws[k].as_slice()) {
            r.push(n);
        }
        k = k + 1;
    }
    assert(views.subrange(0, k as int) =~= views);
    r
}

/// The word spells `name` (a lower-case name), in any case
fn word_is(w: &[u8], name: &str) -> (r: bool)
    ensures
        r == (lower(w@) == name.spec_bytes()),
{
    let nb = name.as_bytes_vec();
    if w.len() != nb.len() {
        return false;
    }
    let mut k: usize = 0;
    while k < w.len()
        invariant
            k <= w@.len(),
            w@.len() == nb@.len(),
            nb@ == name.spec_bytes(),
            forall|q: int| 0 <= q < k ==> lower(w@)[q] == nb@[q],
        decreases w@.len() - k,
    {
        let b = w[k];
        let l: u8 = if 65u8 <= b && b <= 90u8 { b + 32 } else { b };
        if l != nb[k] {
            assert(lower(w@)[k as int] != nb@[k as int]);
            return false;
        }
        k = k + 1;
    }
    assert(lower(w@) =~= nb@);
    true
}

/// The command a word names
pub fn command_of(w: &[u8]) -> (r: Command)
    ensures
        r == command_spec(w@),
{
    if word_is(w, "help") || word_is(w, "h") {
        Command::Help
    } else if word_is(w, "move") || word_is(w, "m") {
        Command::Move
    } else if word_is(w, "laser") || word_is(w, "l") {
        Command::Laser
    } else if word_is(w, "torpedo") || word_is(w, "t") {
        Command::Torpedo
    } else if word_is(w, "shields") || word_is(w, "sh") {
        Command::Shields
    } else if word_is(w, "scan") || word_is(w, "sc") {
        Command::Scan
    } else if word_is(w, "survey") || word_is(w, "su") {
        Command::Survey
    } else if word_is(w, "investigate") || word_is(w, "i") {
        Command::Investigate
    } else if word_is(w, "dock") || word_is(w, "d") {
        Command::Dock
    } else if word_is(w, "log") {
        Command::Log
    } else if word_is(w, "quit") || word_is(w, "q") {
        Command::Quit
    } else {
        Command::Unknown
    }
}

} // verus!
