//! Text helpers: joining lines and trimming white space.

use vstd::prelude::*;

verus! {

/// The parts joined with a single newline between neighbours.
pub open spec fn join_lines(parts: Seq<Seq<char>>) -> Seq<char>
    decreases parts.len(),
{
    if parts.len() == 0 {
        Seq::empty()
    } else if parts.len() == 1 {
        parts[0]
    } else {
        join_lines(parts.drop_last()) + "\n"@ + parts.last()
    }
}

/// Where part `k` starts inside `join_lines(parts)`.
pub open spec fn line_start(parts: Seq<Seq<char>>, k: int) -> int {
    if k == 0 {
        0
    } else {
        join_lines(parts.take(k)).len() + 1int
    }
}

/// Unicode's White_Space property.
pub open spec fn is_white_space(c: char) -> bool {
    ||| '\u{9}' <= c <= '\u{d}'
    ||| c == ' '
    ||| c == '\u{85}'
    ||| c == '\u{a0}'
    ||| c == '\u{1680}'
    ||| '\u{2000}' <= c <= '\u{200a}'
    ||| c == '\u{2028}'
    ||| c == '\u{2029}'
    ||| c == '\u{202f}'
    ||| c == '\u{205f}'
    ||| c == '\u{3000}'
}

pub open spec fn trim_start_ws(s: Seq<char>) -> Seq<char>
    decreases s.len(),
{
    if s.len() > 0 && is_white_space(s[0]) {
        trim_start_ws(s.drop_first())
    } else {
        s
    }
}

pub open spec fn trim_end_ws(s: Seq<char>) -> Seq<char>
    decreases s.len(),
{
    if s.len() > 0 && is_white_space(s.last()) {
        trim_end_ws(s.drop_last())
    } else {
        s
    }
}

/// `s` without its leading and trailing white space.
pub open spec fn trim_ws(s: Seq<char>) -> Seq<char> {
    trim_end_ws(trim_start_ws(s))
}

/// Relies on `str::trim`: removes leading and trailing characters with
/// Unicode's White_Space property.
#[verifier::external_body]
pub(crate) fn trimmed(s: &str) -> (r: String)
    ensures
        r@ == trim_ws(s@),
{
    s.trim().to_string()
}

/// Joins the lines with a newline between neighbours.
pub fn join_with_newline(parts: &Vec<String>) -> (r: String)
    ensures
        r@ == join_lines(parts@.map_values(|s: String| s@)),
{
    let ghost views = parts@.map_values(|s: String| s@);
    let mut out = String::new();
    let mut i: usize = 0;
    while i < parts.len()
        invariant
            i <= parts.len(),
            views == parts@.map_values(|s: String| s@),
            out@ == join_lines(views.take(i as int)),
        decreases parts.len() - i,
    {
        assert(views.take(i + 1).drop_last() =~= views.take(i as int));
        if i > 0 {
            out.append("\n");
        }
        out.append(parts[i].as_str());
        if i == 0 {
            assert(views.take(1)[0] == parts@[0]@);
            assert(out@ =~= views.take(1)[0]);
        }
        i = i + 1;
    }
    assert(views.take(parts.len() as int) =~= views);
    out
}

/// Everything before part `k` of a join is the join of the earlier parts.
pub proof fn lemma_join_prefix(parts: Seq<Seq<char>>, m: int)
    requires
        1 <= m <= parts.len(),
    ensures
        join_lines(parts).len() >= join_lines(parts.take(m)).len(),
        join_lines(parts).subrange(0, join_lines(parts.take(m)).len() as int) == join_lines(
            parts.take(m),
        ),
    decreases parts.len(),
{
    if m == parts.len() {
        assert(parts.take(m) =~= parts);
        assert(join_lines(parts).subrange(0, join_lines(parts).len() as int) =~= join_lines(parts));
    } else {
        let d = parts.drop_last();
        assert(d.take(m) =~= parts.take(m));
        lemma_join_prefix(d, m);
        let jd = join_lines(d);
        let jm = join_lines(parts.take(m));
        assert(join_lines(parts) == jd + "\n"@ + parts.last());
        assert(join_lines(parts).subrange(0, jm.len() as int) =~= jd.subrange(0, jm.len() as int));
    }
}

/// Part `k` of a join stands at `line_start(parts, k)`, and each later part
/// starts after it ends.
pub proof fn lemma_join_part(parts: Seq<Seq<char>>, k: int)
    requires
        0 <= k < parts.len(),
    ensures
        0 <= line_start(parts, k),
        line_start(parts, k) + parts[k].len() <= join_lines(parts).len(),
        join_lines(parts).subrange(line_start(parts, k), line_start(parts, k) + parts[k].len())
            == parts[k],
        forall|j: int|
            k < j < parts.len() ==> line_start(parts, k) + parts[k].len() < line_start(parts, j),
{
    reveal_strlit("\n");
    let t = parts.take(k + 1);
    assert(t.drop_last() =~= parts.take(k));
    assert(t.last() == parts[k]);
    lemma_join_prefix(parts, k + 1);
    let jt = join_lines(t);
    let s = line_start(parts, k);
    if k == 0 {
        assert(jt == parts[0]);
    } else {
        assert(jt == join_lines(parts.take(k)) + "\n"@ + parts[k]);
    }
    assert(jt.len() == s + parts[k].len());
    assert(jt.subrange(s, s + parts[k].len()) =~= parts[k]);
    assert(join_lines(parts).subrange(s, s + parts[k].len()) =~= jt.subrange(
        s,
        s + parts[k].len(),
    ));
    assert forall|j: int| k < j < parts.len() implies s + parts[k].len() < line_start(
        parts,
        j,
    ) by {
        assert(parts.take(j).take(k + 1) =~= t);
        lemma_join_prefix(parts.take(j), k + 1);
    }
}

} // verus!
