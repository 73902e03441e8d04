//! Scanning the text of the init process's mount table and cgroup file for
//! the directories that container engines create.

use vstd::prelude::*;
use vstd::std_specs::iter::IteratorSpec;

verus! {

/// Whether `pat` occurs in `text` as a contiguous run.
pub open spec fn contains_seq(text: Seq<char>, pat: Seq<char>) -> bool {
    exists|i: int|
        0 <= i && i + pat.len() <= text.len() && #[trigger] text.subrange(i, i + pat.len()) == pat
}

/// Whether `text[start..start + pat.len()]` equals `pat`.
fn matches_at(text: &Vec<char>, start: usize, pat: &Vec<char>) -> (r: bool)
    requires
        start + pat@.len() <= text@.len(),
    ensures
        r == (text@.subrange(start as int, start + pat@.len()) == pat@),
{
    let n: usize = text.len();
    let mut j: usize = 0;
    while j < pat.len()
        invariant
            start + pat@.len() <= text@.len(),
            j <= pat@.len(),
            n == text@.len(),
            forall|k: int| 0 <= k < j ==> text@[start + k] == pat@[k],
        decreases pat@.len() - j,
    {
        if text[start + j] != pat[j] {
            assert(text@.subrange(start as int, start + pat@.len())[j as int] != pat@[j as int]);
            return false;
        }
        j = j + 1;
    }
    assert(text@.subrange(start as int, start + pat@.len()) =~= pat@);
    true
}

/// Whether `pat` occurs somewhere in `text`.
pub fn contains_chars(text: &Vec<char>, pat: &Vec<char>) -> (r: bool)
    ensures
        r == contains_seq(text@, pat@),
{
    if pat.len() > text.len() {
        return false;
    }
    let last: usize = text.len() - pat.len();
    let mut i: usize = 0;
    loop
        invariant
            i <= last,
            last + pat@.len() == text@.len(),
            forall|k: int| 0 <= k < i ==> #[trigger] text@.subrange(k, k + pat@.len()) != pat@,
        decreases last - i,
    {
        if matches_at(text, i, pat) {
            return true;
        }
        if i == last {
            return false;
        }
        i = i + 1;
    }
}

/// The characters of `s`, in order.
pub fn chars_of(s: &str) -> (r: Vec<char>)
    ensures
        r@ == s@,
{
    broadcast use vstd::string::group_string_axioms;
    let mut out: Vec<char> = Vec::new();
    for c in it: s.chars()
        invariant
            it.seq() == s@,
            out@ == s@.take(it.index() as int),
    {
        out.push(c);
    }
    assert(out@ =~= s@);
    out
}

/// Whether `c` has the Unicode `White_Space` property, as `char::is_whitespace` tests it.
pub open spec fn is_white_space(c: char) -> bool {
    let u = c as u32;
    (0x9 <= u && u <= 0xd) || u == 0x20 || u == 0x85 || u == 0xa0 || u == 0x1680 || (0x2000 <= u
        && u <= 0x200a) || u == 0x2028 || u == 0x2029 || u == 0x202f || u == 0x205f || u == 0x3000
}

fn white_space(c: char) -> (r: bool)
    ensures
        r == is_white_space(c),
{
    let u = c as u32;
    (0x9 <= u && u <= 0xd) || u == 0x20 || u == 0x85 || u == 0xa0 || u == 0x1680 || (0x2000 <= u
        && u <= 0x200a) || u == 0x2028 || u == 0x2029 || u == 0x202f || u == 0x205f || u == 0x3000
}

/// The maximal runs of non-white-space characters of `s`, in order.
pub open spec fn fields(s: Seq<char>) -> Seq<Seq<char>>
    decreases s.len(),
{
    if s.len() == 0 {
        Seq::empty()
    } else {
        let prev = fields(s.drop_last());
        let c = s.last();
        if is_white_space(c) {
            prev
        } else if s.len() >= 2 && !is_white_space(s[s.len() - 2]) {
            prev.update(prev.len() - 1, prev.last().push(c))
        } else {
            prev.push(seq![c])
        }
    }
}

/// The pieces of `s` between line feeds, in order; text after the last line
/// feed, possibly empty, is the last piece. A carriage return before a line
/// feed stays in its piece; being white space, it changes none of its fields.
pub open spec fn lines(s: Seq<char>) -> Seq<Seq<char>>
    decreases s.len(),
{
    if s.len() == 0 {
        seq![Seq::empty()]
    } else {
        let prev = lines(s.drop_last());
        if s.last() == '\n' {
            prev.push(Seq::empty())
        } else {
            prev.update(prev.len() - 1, prev.last().push(s.last()))
        }
    }
}

proof fn lemma_fields_nonempty(s: Seq<char>)
    requires
        s.len() > 0,
        !is_white_space(s.last()),
    ensures
        fields(s).len() > 0,
    decreases s.len(),
{
    if s.len() >= 2 && !is_white_space(s[s.len() - 2]) {
        lemma_fields_nonempty(s.drop_last());
    }
}

proof fn lemma_lines_nonempty(s: Seq<char>)
    ensures
        lines(s).len() > 0,
    decreases s.len(),
{
    if s.len() > 0 {
        lemma_lines_nonempty(s.drop_last());
    }
}

/// The sequence `/docker/`.
pub open spec fn docker_marker() -> Seq<char> {
    seq!['/', 'd', 'o', 'c', 'k', 'e', 'r', '/']
}

/// The sequence `/lxc/`.
pub open spec fn lxc_marker() -> Seq<char> {
    seq!['/', 'l', 'x', 'c', '/']
}

/// Whether `text` holds `/docker/` or `/lxc/`.
pub open spec fn has_marker(text: Seq<char>) -> bool {
    contains_seq(text, docker_marker()) || contains_seq(text, lxc_marker())
}

/// Whether a mount-table line names a container's directory as the root of
/// its mount: its fourth field holds `/docker/` or `/lxc/`.
pub open spec fn mount_line_qualifies(line: Seq<char>) -> bool {
    fields(line).len() > 3 && has_marker(fields(line)[3])
}

/// Whether some line of a mount table qualifies.
pub open spec fn mount_table_qualifies(text: Seq<char>) -> bool {
    exists|j: int| 0 <= j < lines(text).len() && mount_line_qualifies(#[trigger] lines(text)[j])
}

fn docker_marker_chars() -> (r: Vec<char>)
    ensures
        r@ == docker_marker(),
{
    let r = vec!['/', 'd', 'o', 'c', 'k', 'e', 'r', '/'];
    assert(r@ =~= docker_marker());
    r
}

fn lxc_marker_chars() -> (r: Vec<char>)
    ensures
        r@ == lxc_marker(),
{
    let r = vec!['/', 'l', 'x', 'c', '/'];
    assert(r@ =~= lxc_marker());
    r
}

fn marker_in(text: &Vec<char>) -> (r: bool)
    ensures
        r == has_marker(text@),
{
    contains_chars(text, &docker_marker_chars()) || contains_chars(text, &lxc_marker_chars())
}

/// Whether the line `text[start..end]` qualifies as a mount-table line.
fn line_qualifies_within(text: &Vec<char>, start: usize, end: usize) -> (r: bool)
    requires
        start <= end <= text@.len(),
    ensures
        r == mount_line_qualifies(text@.subrange(start as int, end as int)),
{
    let mut count: usize = 0;
    let mut fourth: Vec<char> = Vec::new();
    let mut i: usize = start;
    while i < end
        invariant
            start <= i <= end <= text@.len(),
            count == fields(text@.subrange(start as int, i as int)).len(),
            count <= i - start,
            count > 3 ==> fourth@ == fields(text@.subrange(start as int, i as int))[3],
        decreases end - i,
    {
        let c = text[i];
        let ghost prefix = text@.subrange(start as int, i as int);
        let ghost next = text@.subrange(start as int, i + 1);
        assert(next.drop_last() =~= prefix);
        if !white_space(c) {
            if i > start && !white_space(text[i - 1]) {
                proof {
                    lemma_fields_nonempty(prefix);
                }
                if count == 4 {
                    fourth.push(c);
                }
            } else {
                count = count + 1;
                if count == 4 {
                    fourth = vec![c];
                    assert(fourth@ =~= seq![c]);
                }
            }
        }
        i = i + 1;
    }
    count > 3 && marker_in(&fourth)
}

proof fn lemma_lines_prefix(s: Seq<char>, k: int)
    requires
        0 <= k <= s.len(),
    ensures
        lines(s).len() >= lines(s.take(k)).len(),
        forall|j: int|
            0 <= j < lines(s.take(k)).len() - 1 ==> lines(s)[j] == #[trigger] lines(s.take(k))[j],
    decreases s.len() - k,
{
    if k < s.len() {
        lemma_lines_prefix(s, k + 1);
        lemma_lines_nonempty(s.take(k));
        assert(s.take(k + 1).drop_last() =~= s.take(k));
        assert forall|j: int| 0 <= j < lines(s.take(k)).len() - 1 implies lines(s)[j]
            == #[trigger] lines(s.take(k))[j] by {
            assert(lines(s.take(k + 1))[j] == lines(s.take(k))[j]);
        }
    } else {
        assert(s.take(k) =~= s);
    }
}

/// Whether some line of `text` qualifies as a mount-table line.
fn table_qualifies(text: &Vec<char>) -> (r: bool)
    ensures
        r == mount_table_qualifies(text@),
{
    let n: usize = text.len();
    let mut start: usize = 0;
    let mut i: usize = 0;
    while i < n
        invariant
            n == text@.len(),
            start <= i <= n,
            lines(text@.take(i as int)).len() > 0,
            lines(text@.take(i as int)).last() == text@.subrange(start as int, i as int),
            forall|j: int|
                0 <= j < lines(text@.take(i as int)).len() - 1 ==> !mount_line_qualifies(
                    #[trigger] lines(text@.take(i as int))[j],
                ),
        decreases n - i,
    {
        let ghost before = lines(text@.take(i as int));
        assert(text@.take(i + 1).drop_last() =~= text@.take(i as int));
        if text[i] == '\n' {
            if line_qualifies_within(text, start, i) {
                proof {
                    lemma_lines_prefix(text@, i + 1);
                    assert(lines(text@.take(i + 1)) == before.push(Seq::empty()));
                    assert(lines(text@.take(i + 1))[before.len() - 1] == before.last());
                    assert(lines(text@)[before.len() - 1] == before.last());
                }
                return true;
            }
            start = i + 1;
        } else {
            assert(text@.subrange(start as int, i + 1) =~= text@.subrange(start as int, i as int).push(text@[i as int]));
        }
        i = i + 1;
    }
    assert(text@.take(n as int) =~= text@);
    let r = line_qualifies_within(text, start, n);
    assert(r ==> lines(text@)[lines(text@).len() - 1] == text@.subrange(start as int, n as int));
    r
}

/// Whether a single mount-table line qualifies: its fourth white-space
/// separated field (the root of the mount) holds `/docker/` or `/lxc/`.
/// Any other field holding those words does not count.
pub fn mountinfo_line_qualifies(line: &str) -> (r: bool)
    ensures
        r == mount_line_qualifies(line@),
{
    let text = chars_of(line);
    assert(text@.subrange(0, text@.len() as int) =~= text@);
    line_qualifies_within(&text, 0, text.len())
}

/// Whether the text of a mount table qualifies: some line of it does.
pub fn mountinfo_qualifies(contents: &str) -> (r: bool)
    ensures
        r == mount_table_qualifies(contents@),
{
    let text = chars_of(contents);
    table_qualifies(&text)
}

/// Whether the text of a cgroup file qualifies: `/docker/` or `/lxc/`
/// occurs anywhere in it, whatever line or field it stands in.
pub fn cgroup_qualifies(contents: &str) -> (r: bool)
    ensures
        r == has_marker(contents@),
{
    let text = chars_of(contents);
    marker_in(&text)
}

} // verus!
