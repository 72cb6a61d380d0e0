//! Removal of the ai-memory instruction block from an agent instruction
//! file of a coding agent.
use vstd::prelude::*;
use vstd::std_specs::iter::IteratorSpec;

verus! {

/// Opening marker of the instruction block.
pub const MARKER_START: &'static str = "<!-- ai-memory:start -->";

/// Closing marker of the instruction block.
pub const MARKER_END: &'static str = "<!-- ai-memory:end -->";

/// Facts about the two markers that the proofs below rely on: their
/// lengths, that `<` opens each and appears nowhere else in them, that
/// neither holds a newline, and that they part at index 15.
proof fn lemma_markers()
    ensures
        MARKER_START@.len() == 24,
        MARKER_END@.len() == 22,
        MARKER_START@[0] == '<',
        MARKER_END@[0] == '<',
        forall|k: int| 1 <= k < 24 ==> MARKER_START@[k] != '<',
        forall|k: int| 1 <= k < 22 ==> MARKER_END@[k] != '<',
        forall|k: int| 0 <= k < 24 ==> MARKER_START@[k] != '\n',
        forall|k: int| 0 <= k < 22 ==> MARKER_END@[k] != '\n',
        MARKER_START@[15] != MARKER_END@[15],
{
    reveal_strlit("<!-- ai-memory:start -->");
    reveal_strlit("<!-- ai-memory:end -->");
}

/// `pat` occurs in `s` starting at index `i`.
pub open spec fn occurs_at(s: Seq<char>, pat: Seq<char>, i: int) -> bool {
    0 <= i && i + pat.len() <= s.len() && s.subrange(i, i + pat.len()) == pat
}

/// Index of the first occurrence of `pat` in `s` at or after `from`.
pub open spec fn find_from(s: Seq<char>, pat: Seq<char>, from: int) -> Option<int>
    decreases s.len() + 1 - from,
{
    if from < 0 || from + pat.len() > s.len() {
        None
    } else if s.subrange(from, from + pat.len()) == pat {
        Some(from)
    } else {
        find_from(s, pat, from + 1)
    }
}

/// What is left of `s` once the block occupying `[start, end)` is cut out:
/// one newline right after the block goes with it, and when the block was
/// the end of the file, the blank line that preceded it goes too.
pub open spec fn cut_block(s: Seq<char>, start: int, end: int) -> Seq<char> {
    let after = if end < s.len() && s[end] == '\n' { end + 1 } else { end };
    let head = s.subrange(0, start);
    let tail = s.subrange(after, s.len() as int);
    let head = if tail.len() == 0 && head.len() >= 2 && head[head.len() - 2] == '\n'
        && head[head.len() - 1] == '\n' {
        head.drop_last()
    } else {
        head
    };
    head + tail
}

/// The content after removing the first instruction block, and whether a
/// block (an opening marker followed by a closing marker) was found.
pub open spec fn strip_spec(s: Seq<char>) -> (Seq<char>, bool) {
    match find_from(s, MARKER_START@, 0) {
        None => (s, false),
        Some(start) => match find_from(s, MARKER_END@, start) {
            None => (s, false),
            Some(end) => (cut_block(s, start, end + MARKER_END@.len()), true),
        },
    }
}

/// `find_from` gives the first occurrence at or after `from`, and `None`
/// exactly when there is none.
pub proof fn lemma_find_from(s: Seq<char>, pat: Seq<char>, from: int)
    requires
        0 <= from,
    ensures
        find_from(s, pat, from) matches Some(i) ==> from <= i && occurs_at(s, pat, i) && forall|
            j: int,
        | from <= j < i ==> !occurs_at(s, pat, j),
        find_from(s, pat, from) is None ==> forall|j: int| from <= j ==> !occurs_at(s, pat, j),
    decreases s.len() + 1 - from,
{
    if from + pat.len() > s.len() {
    } else if s.subrange(from, from + pat.len()) == pat {
    } else {
        lemma_find_from(s, pat, from + 1);
    }
}

/// The first occurrence at or after `from` is what `find_from` returns.
pub proof fn lemma_find_from_first(s: Seq<char>, pat: Seq<char>, from: int, i: int)
    requires
        0 <= from <= i,
        occurs_at(s, pat, i),
        forall|j: int| from <= j < i ==> !occurs_at(s, pat, j),
    ensures
        find_from(s, pat, from) == Some(i),
    decreases i - from,
{
    if from < i {
        assert(!occurs_at(s, pat, from));
        lemma_find_from_first(s, pat, from + 1, i);
    }
}

/// The text left behind a block: what follows it, less one leading newline.
pub open spec fn after_block(post: Seq<char>) -> Seq<char> {
    if post.len() > 0 && post[0] == '\n' {
        post.drop_first()
    } else {
        post
    }
}

/// In `pre + START + inner + END + post`, the first opening marker is the
/// one after `pre` and the first closing marker after it is the one after
/// `inner`, provided `pre` holds no opening and `inner` no closing marker.
proof fn lemma_block_position(pre: Seq<char>, inner: Seq<char>, post: Seq<char>)
    requires
        forall|i: int| !occurs_at(pre, MARKER_START@, i),
        forall|i: int| !occurs_at(inner, MARKER_END@, i),
    ensures
        ({
            let x = pre + MARKER_START@ + inner + MARKER_END@ + post;
            &&& find_from(x, MARKER_START@, 0) == Some(pre.len() as int)
            &&& find_from(x, MARKER_END@, pre.len() as int) == Some(
                (pre.len() + MARKER_START@.len() + inner.len()) as int,
            )
        }),
{
    lemma_markers();
    let st = MARKER_START@;
    let en = MARKER_END@;
    let x = pre + st + inner + en + post;
    let p = pre.len() as int;
    let e = p + 24 + inner.len();
    assert forall|k: int| 0 <= k < p implies x[k] == pre[k] by {}
    assert forall|k: int| p <= k < p + 24 implies x[k] == st[k - p] by {}
    assert forall|k: int| p + 24 <= k < e implies x[k] == inner[k - p - 24] by {}
    assert forall|k: int| e <= k < e + 22 implies x[k] == en[k - e] by {}
    assert forall|i: int| 0 <= i < p implies !occurs_at(x, st, i) by {
        if occurs_at(x, st, i) {
            if i + 24 <= p {
                assert(x.subrange(i, i + 24) =~= pre.subrange(i, i + 24));
                assert(occurs_at(pre, st, i));
            } else {
                assert(x.subrange(i, i + 24)[p - i] == x[p]);
                assert(st[p - i] != '<');
            }
        }
    }
    assert(x.subrange(p, p + 24) =~= st);
    lemma_find_from_first(x, st, 0, p);
    assert forall|j: int| p <= j < e implies !occurs_at(x, en, j) by {
        if occurs_at(x, en, j) {
            if j == p {
                assert(x.subrange(j, j + 22)[15] == x[p + 15]);
            } else if j < p + 24 {
                assert(x.subrange(j, j + 22)[0] == x[j]);
            } else if j + 22 <= e {
                assert(x.subrange(j, j + 22) =~= inner.subrange(j - p - 24, j - p - 24 + 22));
                assert(occurs_at(inner, en, j - p - 24));
            } else {
                assert(x.subrange(j, j + 22)[e - j] == x[e]);
                assert(en[e - j] != '<');
            }
        }
    }
    assert(x.subrange(e, e + 22) =~= en);
    lemma_find_from_first(x, en, p, e);
}

/// Stripping `pre + START + inner + END + post` removes exactly the block
/// and one newline after it: the surrounding text is kept, and only when
/// nothing follows the block does a blank line before it go too.
pub proof fn lemma_strip_keeps_surroundings(pre: Seq<char>, inner: Seq<char>, post: Seq<char>)
    requires
        forall|i: int| !occurs_at(pre, MARKER_START@, i),
        forall|i: int| !occurs_at(inner, MARKER_END@, i),
    ensures
        ({
            let r = strip_spec(pre + MARKER_START@ + inner + MARKER_END@ + post);
            let rest = after_block(post);
            &&& r.1
            &&& rest.len() > 0 ==> r.0 == pre + rest
            &&& rest.len() == 0 ==> r.0 == (if pre.len() >= 2 && pre[pre.len() - 2] == '\n'
                && pre[pre.len() - 1] == '\n' {
                pre.drop_last()
            } else {
                pre
            })
        }),
{
    lemma_markers();
    lemma_block_position(pre, inner, post);
    let x = pre + MARKER_START@ + inner + MARKER_END@ + post;
    let p = pre.len() as int;
    let end = p + 24 + inner.len() + 22;
    assert forall|k: int| end <= k < x.len() implies x[k] == post[k - end] by {}
    assert(x.subrange(0, p) =~= pre);
    if end < x.len() && x[end] == '\n' {
        assert(x.subrange(end + 1, x.len() as int) =~= after_block(post));
    } else {
        assert(x.subrange(end, x.len() as int) =~= after_block(post));
    }
}

/// An install that appends `"\n" + START + inner + END + "\n"` to a file
/// ending in a newline, followed by a strip, gives back the file.
pub proof fn lemma_install_then_strip(original: Seq<char>, inner: Seq<char>)
    requires
        original.len() > 0,
        original.last() == '\n',
        forall|i: int| !occurs_at(original, MARKER_START@, i),
        forall|i: int| !occurs_at(inner, MARKER_END@, i),
    ensures
        strip_spec(original + seq!['\n'] + MARKER_START@ + inner + MARKER_END@ + seq!['\n']) == (
            original,
            true,
        ),
{
    lemma_markers();
    let pre = original + seq!['\n'];
    assert forall|i: int| !occurs_at(pre, MARKER_START@, i) by {
        if occurs_at(pre, MARKER_START@, i) {
            if i + 24 <= original.len() {
                assert(pre.subrange(i, i + 24) =~= original.subrange(i, i + 24));
                assert(occurs_at(original, MARKER_START@, i));
            } else {
                let k = original.len() - i;
                assert(pre.subrange(i, i + 24)[k] == pre[original.len() as int]);
            }
        }
    }
    lemma_strip_keeps_surroundings(pre, inner, seq!['\n']);
    assert(after_block(seq!['\n']) =~= Seq::<char>::empty());
    assert(pre.drop_last() =~= original);
}

/// A block is found exactly when an opening marker is followed (at or after
/// its position) by a closing marker; when none is found the content is
/// left as it was.
pub proof fn lemma_strip_found_iff_block(s: Seq<char>)
    ensures
        strip_spec(s).1 <==> exists|i: int, j: int|
            i <= j && #[trigger] occurs_at(s, MARKER_START@, i) && #[trigger] occurs_at(
                s,
                MARKER_END@,
                j,
            ),
        !strip_spec(s).1 ==> strip_spec(s).0 == s,
{
    lemma_find_from(s, MARKER_START@, 0);
    match find_from(s, MARKER_START@, 0) {
        None => {},
        Some(start) => {
            lemma_find_from(s, MARKER_END@, start);
            match find_from(s, MARKER_END@, start) {
                None => {
                    assert forall|i: int, j: int|
                        i <= j && #[trigger] occurs_at(s, MARKER_START@, i) implies !#[trigger] occurs_at(
                        s,
                        MARKER_END@,
                        j,
                    ) by {
                        if i < start {
                            assert(!occurs_at(s, MARKER_START@, i));
                        }
                    }
                },
                Some(end) => {
                    assert(occurs_at(s, MARKER_START@, start) && occurs_at(s, MARKER_END@, end));
                },
            }
        },
    }
}

fn chars_of(s: &str) -> (v: Vec<char>)
    ensures
        v@ == s@,
{
    let mut v: Vec<char> = Vec::new();
    let mut it = s.chars();
    loop
        invariant
            v@ + it.remaining() == s@,
            it.obeys_prophetic_iter_laws(),
            it.decrease() is Some,
        ensures
            v@ == s@,
        decreases it.decrease()->0,
    {
        proof {
            broadcast use vstd::string::group_string_axioms;
        }
        match it.next() {
            Some(c) => v.push(c),
            None => {
                assert(it.remaining().len() == 0);
                break;
            },
        }
    }
    v
}

fn matches_at(s: &Vec<char>, pat: &Vec<char>, i: usize) -> (r: bool)
    requires
        i + pat@.len() <= s@.len(),
    ensures
        r == (s@.subrange(i as int, i + pat@.len()) == pat@),
{
    let m = pat.len();
    let n = s.len();
    let mut k: usize = 0;
    while k < m
        invariant
            m == pat@.len(),
            n == s@.len(),
            i + m <= s@.len(),
            k <= m,
            forall|t: int| 0 <= t < k ==> s@[i + t] == pat@[t],
        decreases m - k,
    {
        if s[i + k] != pat[k] {
            assert(s@.subrange(i as int, i + m)[k as int] != pat@[k as int]);
            return false;
        }
        k = k + 1;
    }
    assert(s@.subrange(i as int, i + m) =~= pat@);
    true
}

/// First occurrence of `pat` in `s` at or after `from`.
fn find_chars(s: &Vec<char>, pat: &Vec<char>, from: usize) -> (r: Option<usize>)
    requires
        pat@.len() > 0,
    ensures
        match r {
            Some(i) => find_from(s@, pat@, from as int) == Some(i as int),
            None => find_from(s@, pat@, from as int) is None,
        },
{
    let n = s.len();
    let m = pat.len();
    if from > n {
        return None;
    }
    let mut i = from;
    while m <= n - i
        invariant
            n == s@.len(),
            m == pat@.len(),
            m > 0,
            from <= i <= n,
            find_from(s@, pat@, from as int) == find_from(s@, pat@, i as int),
        decreases n - i,
    {
        if matches_at(s, pat, i) {
            return Some(i);
        }
        i = i + 1;
    }
    None
}

/// Remove the `<!-- ai-memory:start -->`...`<!-- ai-memory:end -->` block
/// (markers included) from an instruction file. Returns the new content
/// and whether a block was found; without a block the content comes back
/// unchanged.
pub fn strip_instructions_block(content: &str) -> (r: (String, bool))
    ensures
        (r.0@, r.1) == strip_spec(content@),
{
    proof {
        lemma_markers();
    }
    let c = chars_of(content);
    let start_pat = chars_of(MARKER_START);
    let end_pat = chars_of(MARKER_END);
    let start = match find_chars(&c, &start_pat, 0) {
        Some(i) => i,
        None => {
            return (String::from_str(content), false);
        },
    };
    proof {
        lemma_find_from(c@, MARKER_START@, 0);
    }
    let end_at = match find_chars(&c, &end_pat, start) {
        Some(j) => j,
        None => {
            return (String::from_str(content), false);
        },
    };
    proof {
        lemma_find_from(c@, MARKER_END@, start as int);
    }
    let n = c.len();
    let end = end_at + end_pat.len();
    let after = if end < n && c[end] == '\n' {
        end + 1
    } else {
        end
    };
    let head_end = if after == n && start >= 2 && c[start - 2] == '\n' && c[start - 1] == '\n' {
        start - 1
    } else {
        start
    };
    let mut out = String::from_str(content.substring_char(0, head_end));
    out.append(content.substring_char(after, n));
    proof {
        let s = c@;
        let head = s.subrange(0, start as int);
        if after == n && start >= 2 && s[start - 2] == '\n' && s[start - 1] == '\n' {
            assert(head.drop_last() =~= s.subrange(0, head_end as int));
        } else {
            assert(head =~= s.subrange(0, head_end as int));
        }
    }
    (out, true)
}

} // verus!
