use vstd::prelude::*;
use vstd::std_specs::iter::IteratorSpec;
use vstd::string::StrSliceExecFns;
use vstd::string::StringExecFns;

verus! {

broadcast use vstd::string::axiom_spec_iter, vstd::string::next_postcondition;

/// The characters of `s`, in order.
pub fn chars_of(s: &str) -> (r: Vec<char>)
    ensures
        r@ == s@,
{
    let mut it = s.chars();
    let mut v: Vec<char> = Vec::new();
    loop
        invariant
            v@ + it.remaining() == s@,
            it.obeys_prophetic_iter_laws(),
            it.decrease() is Some,
        ensures
            v@ == s@,
        decreases it.decrease()->0,
    {
        match it.next() {
            Some(c) => {
                v.push(c);
            },
            None => {
                break;
            },
        }
    }
    v
}


/// `pat` occurs in `s` starting at index `i`.
pub open spec fn occurs_at(s: Seq<char>, pat: Seq<char>, i: int) -> bool {
    0 <= i && i + pat.len() <= s.len() && s.subrange(i, i + pat.len()) == pat
}

/// Index of the first occurrence of `pat` in `s` at or after `i`, or -1.
pub open spec fn find_from(s: Seq<char>, pat: Seq<char>, i: int) -> int
    decreases s.len() - i,
{
    if i < 0 || i + pat.len() > s.len() {
        -1
    } else if occurs_at(s, pat, i) {
        i
    } else if i >= s.len() {
        -1
    } else {
        find_from(s, pat, i + 1)
    }
}

/// Unicode white space, as `char::is_whitespace` defines it.
pub open spec fn is_ws(c: char) -> bool {
    c == '\t' || c == '\n' || c == '\u{0B}' || c == '\u{0C}' || c == '\r' || c == ' ' || c == '\u{85}'
        || c == '\u{A0}' || c == '\u{1680}' || ('\u{2000}' <= c && c <= '\u{200A}') || c == '\u{2028}'
        || c == '\u{2029}' || c == '\u{202F}' || c == '\u{205F}' || c == '\u{3000}'
}

pub open spec fn skip_ws(s: Seq<char>, i: int) -> int
    decreases s.len() - i,
{
    if i < 0 || i >= s.len() {
        s.len() as int
    } else if is_ws(s[i]) {
        skip_ws(s, i + 1)
    } else {
        i
    }
}

pub open spec fn back_ws(s: Seq<char>, lo: int, j: int) -> int
    decreases j - lo,
{
    if j <= lo || j > s.len() {
        lo
    } else if is_ws(s[j - 1]) {
        back_ws(s, lo, j - 1)
    } else {
        j
    }
}

/// `s` without leading and trailing white space.
pub open spec fn trim(s: Seq<char>) -> Seq<char> {
    s.subrange(skip_ws(s, 0), back_ws(s, skip_ws(s, 0), s.len() as int))
}

pub open spec fn fence() -> Seq<char> {
    seq!['`', '`', '`']
}

pub open spec fn bash_fence() -> Seq<char> {
    seq!['`', '`', '`', 'b', 'a', 's', 'h']
}

pub open spec fn sh_fence() -> Seq<char> {
    seq!['`', '`', '`', 's', 'h']
}

/// Command words that make an untagged one-line code block count as a command.
pub open spec fn command_words() -> Seq<Seq<char>> {
    seq![
        seq!['s', 'u', 'd', 'o'],
        seq!['a', 'p', 't'],
        seq!['y', 'u', 'm'],
        seq!['d', 'o', 'c', 'k', 'e', 'r'],
        seq!['s', 'y', 's', 't', 'e', 'm', 'c', 't', 'l'],
    ]
}

/// The trimmed text of the code block that opens with `open` at `start`,
/// if a closing fence follows.
pub open spec fn block_after(s: Seq<char>, start: int, open: Seq<char>) -> Option<Seq<char>> {
    let from = start + open.len();
    let end = find_from(s, fence(), from);
    if end >= 0 {
        Some(trim(s.subrange(from, end)))
    } else {
        None
    }
}

/// The shell command suggested in an assistant's reply: the first code
/// block tagged `bash` or else `sh`; failing both, the first untagged block
/// when it is one line that starts with a known command word.
pub open spec fn spec_extract_command(s: Seq<char>) -> Option<Seq<char>> {
    let b = find_from(s, bash_fence(), 0);
    let h = find_from(s, sh_fence(), 0);
    let f = find_from(s, fence(), 0);
    if b >= 0 {
        block_after(s, b, bash_fence())
    } else if h >= 0 {
        block_after(s, h, sh_fence())
    } else if f >= 0 {
        match block_after(s, f, fence()) {
            Some(c) => if !c.contains('\n') && exists|w: int|
                0 <= w < command_words().len() && occurs_at(c, #[trigger] command_words()[w], 0) {
                Some(c)
            } else {
                None
            },
            None => None,
        }
    } else {
        None
    }
}

fn matches_at(s: &Vec<char>, pat: &Vec<char>, i: usize) -> (r: bool)
    ensures
        r == occurs_at(s@, pat@, i as int),
{
    if i > s.len() || pat.len() > s.len() - i {
        return false;
    }
    let mut k: usize = 0;
    while k < pat.len()
        invariant
            k <= pat@.len(),
            i + pat@.len() <= s@.len(),
            s@.len() <= usize::MAX,
            forall|j: int| 0 <= j < k ==> s@[i + j] == pat@[j],
        decreases pat@.len() - k,
    {
        if s[i + k] != pat[k] {
            assert(s@.subrange(i as int, i + pat@.len())[k as int] != pat@[k as int]);
            return false;
        }
        k = k + 1;
    }
    assert(s@.subrange(i as int, i + pat@.len()) =~= pat@);
    true
}

fn find(s: &Vec<char>, pat: &Vec<char>, from: usize) -> (r: Option<usize>)
    ensures
        match r {
            Some(k) => k as int == find_from(s@, pat@, from as int) && k as int >= 0,
            None => find_from(s@, pat@, from as int) == -1,
        },
{
    if pat.len() == 0 {
        if from <= s.len() {
            proof {
                assert(s@.subrange(from as int, from as int) =~= pat@);
            }
            return Some(from);
        }
        return None;
    }
    let mut i: usize = from;
    while i < s.len() && pat.len() <= s.len() - i
        invariant
            from <= i,
            pat@.len() > 0,
            find_from(s@, pat@, from as int) == find_from(s@, pat@, i as int),
        decreases s@.len() - i,
    {
        if matches_at(s, pat, i) {
            return Some(i);
        }
        i = i + 1;
    }
    None
}

fn is_white(c: char) -> (r: bool)
    ensures
        r == is_ws(c),
{
    c == '\t' || c == '\n' || c == '\u{0B}' || c == '\u{0C}' || c == '\r' || c == ' ' || c == '\u{85}'
        || c == '\u{A0}' || c == '\u{1680}' || ('\u{2000}' <= c && c <= '\u{200A}') || c == '\u{2028}'
        || c == '\u{2029}' || c == '\u{202F}' || c == '\u{205F}' || c == '\u{3000}'
}

/// Bounds of `s` without its surrounding white space.
fn trim_bounds(s: &Vec<char>) -> (r: (usize, usize))
    ensures
        r.0 as int == skip_ws(s@, 0),
        r.1 as int == back_ws(s@, skip_ws(s@, 0), s@.len() as int),
        r.0 <= r.1 <= s@.len(),
{
    let mut a: usize = 0;
    while a < s.len() && is_white(s[a])
        invariant
            a <= s@.len(),
            skip_ws(s@, 0) == skip_ws(s@, a as int),
        decreases s@.len() - a,
    {
        a = a + 1;
    }
    let mut b: usize = s.len();
    while b > a && is_white(s[b - 1])
        invariant
            a <= b <= s@.len(),
            back_ws(s@, a as int, s@.len() as int) == back_ws(s@, a as int, b as int),
        decreases b - a,
    {
        b = b - 1;
    }
    (a, b)
}

fn slice_vec(s: &Vec<char>, a: usize, b: usize) -> (r: Vec<char>)
    requires
        a <= b <= s@.len(),
    ensures
        r@ == s@.subrange(a as int, b as int),
{
    let mut v: Vec<char> = Vec::new();
    let mut i: usize = a;
    while i < b
        invariant
            a <= i <= b <= s@.len(),
            v@ == s@.subrange(a as int, i as int),
        decreases b - i,
    {
        v.push(s[i]);
        i = i + 1;
        proof {
            assert(v@ =~= s@.subrange(a as int, i as int));
        }
    }
    v
}

fn contains_char(s: &Vec<char>, c: char) -> (r: bool)
    ensures
        r == s@.contains(c),
{
    let mut i: usize = 0;
    while i < s.len()
        invariant
            i <= s@.len(),
            forall|j: int| 0 <= j < i ==> s@[j] != c,
        decreases s@.len() - i,
    {
        if s[i] == c {
            return true;
        }
        i = i + 1;
    }
    false
}

fn fence_chars() -> (r: Vec<char>)
    ensures
        r@ == fence(),
{
    let r = vec!['`', '`', '`'];
    assert(r@ =~= fence());
    r
}

fn bash_fence_chars() -> (r: Vec<char>)
    ensures
        r@ == bash_fence(),
{
    let r = vec!['`', '`', '`', 'b', 'a', 's', 'h'];
    assert(r@ =~= bash_fence());
    r
}

fn sh_fence_chars() -> (r: Vec<char>)
    ensures
        r@ == sh_fence(),
{
    let r = vec!['`', '`', '`', 's', 'h'];
    assert(r@ =~= sh_fence());
    r
}

fn command_word_chars() -> (r: Vec<Vec<char>>)
    ensures
        r@.len() == command_words().len(),
        forall|w: int| 0 <= w < r@.len() ==> (#[trigger] r@[w])@ == command_words()[w],
{
    let sudo = vec!['s', 'u', 'd', 'o'];
    let apt = vec!['a', 'p', 't'];
    let yum = vec!['y', 'u', 'm'];
    let docker = vec!['d', 'o', 'c', 'k', 'e', 'r'];
    let systemctl = vec!['s', 'y', 's', 't', 'e', 'm', 'c', 't', 'l'];
    assert(sudo@ =~= command_words()[0]);
    assert(apt@ =~= command_words()[1]);
    assert(yum@ =~= command_words()[2]);
    assert(docker@ =~= command_words()[3]);
    assert(systemctl@ =~= command_words()[4]);
    vec![sudo, apt, yum, docker, systemctl]
}

/// The trimmed block after an opening fence of length `open_len` at `start`,
/// as absolute bounds in `s`.
fn block_bounds(s: &Vec<char>, start: usize, open_len: usize) -> (r: Option<(usize, usize)>)
    requires
        start + open_len <= s@.len(),
    ensures
        match r {
            Some((a, b)) => {
                let from = start + open_len;
                let end = find_from(s@, fence(), from);
                &&& end >= 0
                &&& from <= a <= b <= s@.len()
                &&& s@.subrange(a as int, b as int) == trim(s@.subrange(from, end))
            },
            None => find_from(s@, fence(), start + open_len) < 0,
        },
{
    let n = s.len();
    let from = start + open_len;
    let f = fence_chars();
    match find(s, &f, from) {
        None => None,
        Some(end) => {
            proof {
                lemma_find_from_bounds(s@, fence(), from as int);
                assert(end + 3 <= n);
            }
            let inner = slice_vec(s, from, end);
            let (a, b) = trim_bounds(&inner);
            proof {
                assert(s@.subrange(from + a, from + b) =~= inner@.subrange(a as int, b as int));
                assert(inner@ == s@.subrange(from as int, find_from(s@, fence(), from as int)));
            }
            Some((from + a, from + b))
        },
    }
}

proof fn lemma_find_from_bounds(s: Seq<char>, pat: Seq<char>, i: int)
    ensures
        find_from(s, pat, i) >= 0 ==> i <= find_from(s, pat, i) && occurs_at(s, pat, find_from(s, pat, i)),
    decreases s.len() - i,
{
    if i < 0 || i + pat.len() > s.len() {
    } else if occurs_at(s, pat, i) {
    } else if i >= s.len() {
    } else {
        lemma_find_from_bounds(s, pat, i + 1);
    }
}

fn starts_with_command_word(content: &Vec<char>) -> (r: bool)
    ensures
        r == exists|w: int| 0 <= w < command_words().len() && occurs_at(content@, #[trigger] command_words()[w], 0),
{
    let words = command_word_chars();
    let mut w: usize = 0;
    while w < words.len()
        invariant
            w <= words@.len(),
            words@.len() == command_words().len(),
            forall|v: int| 0 <= v < words@.len() ==> (#[trigger] words@[v])@ == command_words()[v],
            forall|v: int| 0 <= v < w ==> !occurs_at(content@, #[trigger] command_words()[v], 0),
        decreases words@.len() - w,
    {
        if matches_at(content, &words[w], 0) {
            proof {
                assert(occurs_at(content@, command_words()[w as int], 0));
            }
            return true;
        }
        w = w + 1;
    }
    false
}

/// Picks the shell command out of an assistant's reply (see `spec_extract_command`).
pub fn extract_command(response: &str) -> (r: Option<String>)
    ensures
        match r {
            Some(c) => spec_extract_command(response@) == Some(c@),
            None => spec_extract_command(response@) is None,
        },
{
    let s = chars_of(response);
    let bash = bash_fence_chars();
    let sh = sh_fence_chars();
    let f = fence_chars();
    proof {
        lemma_find_from_bounds(s@, bash_fence(), 0);
        lemma_find_from_bounds(s@, sh_fence(), 0);
        lemma_find_from_bounds(s@, fence(), 0);
    }
    if let Some(start) = find(&s, &bash, 0) {
        match block_bounds(&s, start, 7) {
            Some((a, b)) => Some(String::from_str(response.substring_char(a, b))),
            None => None,
        }
    } else if let Some(start) = find(&s, &sh, 0) {
        match block_bounds(&s, start, 5) {
            Some((a, b)) => Some(String::from_str(response.substring_char(a, b))),
            None => None,
        }
    } else if let Some(start) = find(&s, &f, 0) {
        match block_bounds(&s, start, 3) {
            Some((a, b)) => {
                let content = slice_vec(&s, a, b);
                if contains_char(&content, '\n') {
                    return None;
                }
                if starts_with_command_word(&content) {
                    Some(String::from_str(response.substring_char(a, b)))
                } else {
                    None
                }
            },
            None => None,
        }
    } else {
        None
    }
}

} // verus!
