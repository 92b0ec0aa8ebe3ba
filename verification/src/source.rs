use vstd::prelude::*;

verus! {

/// Raised when a source file holds nothing to benchmark; this is fatal for
/// the whole run.
#[derive(PartialEq, Eq, Structural, Debug)]
pub enum SourceError {
    MissingData,
}

/// A line terminated by a line feed also drops one carriage return directly
/// before it, so that sources with either line ending parse alike.
pub open spec fn strip_cr(s: Seq<u8>) -> Seq<u8> {
    if s.len() > 0 && s[s.len() - 1] == 13 {
        s.drop_last()
    } else {
        s
    }
}

/// The lines of `rest`, with `cur` the partial line read so far: each line
/// feed closes a line, and a last line without a terminator still counts.
pub open spec fn lines_from(cur: Seq<u8>, rest: Seq<u8>) -> Seq<Seq<u8>>
    decreases rest.len(),
{
    if rest.len() == 0 {
        if cur.len() == 0 {
            Seq::<Seq<u8>>::empty()
        } else {
            seq![cur]
        }
    } else if rest[0] == 10 {
        seq![strip_cr(cur)] + lines_from(Seq::<u8>::empty(), rest.drop_first())
    } else {
        lines_from(cur.push(rest[0]), rest.drop_first())
    }
}

/// The lines of a whole text.
pub open spec fn spec_lines(content: Seq<u8>) -> Seq<Seq<u8>> {
    lines_from(Seq::<u8>::empty(), content)
}

/// What stands before the first `/` of a line (the whole line if it has
/// none): the bare address of a `address[/suffix]` entry, or the domain of a
/// `domain/path` descriptor.
pub open spec fn take_until_slash(s: Seq<u8>) -> Seq<u8>
    decreases s.len(),
{
    if s.len() == 0 {
        Seq::<u8>::empty()
    } else if s[0] == 47 {
        Seq::<u8>::empty()
    } else {
        seq![s[0]] + take_until_slash(s.drop_first())
    }
}

/// What stands after the first `/` of a line, empty if it has none: the
/// resource path of a `domain/path` descriptor, slashes of the path kept.
pub open spec fn tail_after_slash(s: Seq<u8>) -> Seq<u8>
    decreases s.len(),
{
    if s.len() == 0 {
        Seq::<u8>::empty()
    } else if s[0] == 47 {
        s.drop_first()
    } else {
        tail_after_slash(s.drop_first())
    }
}

/// The candidate addresses of a list: one per line, suffix discarded.
pub open spec fn spec_candidate_list(lines: Seq<Seq<u8>>) -> Seq<Seq<u8>> {
    Seq::new(lines.len(), |i: int| take_until_slash(lines[i]))
}

/// The ordered candidate addresses of a whole source text.
pub open spec fn spec_candidates(content: Seq<u8>) -> Seq<Seq<u8>> {
    spec_candidate_list(spec_lines(content))
}

/// If no `/` stands before index `i` and `i` is the first `/` (or the end),
/// then the split of `s` at its first `/` is the split at `i`.
proof fn lemma_split_at_slash(s: Seq<u8>, i: int)
    requires
        0 <= i <= s.len(),
        forall|k: int| 0 <= k < i ==> s[k] != 47,
        i < s.len() ==> s[i] == 47,
    ensures
        take_until_slash(s) == s.subrange(0, i),
        tail_after_slash(s) == if i < s.len() {
            s.subrange(i + 1, s.len() as int)
        } else {
            Seq::<u8>::empty()
        },
    decreases i,
{
    if i == 0 {
        if s.len() == 0 {
            assert(take_until_slash(s) =~= s.subrange(0, 0));
        } else {
            assert(s[0] == 47);
            assert(take_until_slash(s) =~= s.subrange(0, 0));
            assert(tail_after_slash(s) =~= s.subrange(1, s.len() as int));
        }
    } else {
        assert(s[0] != 47);
        let t = s.drop_first();
        assert(forall|k: int| 0 <= k < i - 1 ==> t[k] == s[k + 1] && t[k] != 47);
        lemma_split_at_slash(t, i - 1);
        assert(seq![s[0]] + t.subrange(0, i - 1) =~= s.subrange(0, i));
        if i < s.len() {
            assert(t.subrange(i, t.len() as int) =~= s.subrange(i + 1, s.len() as int));
        }
    }
}

/// Splits a line at its first `/`: the part before it and the part after it
/// (the whole line and an empty remainder where the line has none).
pub fn split_first_slash(line: &Vec<u8>) -> (r: (Vec<u8>, Vec<u8>))
    ensures
        r.0@ == take_until_slash(line@),
        r.1@ == tail_after_slash(line@),
{
    let n = line.len();
    let mut i: usize = 0;
    while i < n && line[i] != 47
        invariant
            i <= n,
            n == line@.len(),
            forall|k: int| 0 <= k < i ==> line@[k] != 47,
        decreases n - i,
    {
        i = i + 1;
    }
    let mut head: Vec<u8> = Vec::new();
    let mut k: usize = 0;
    while k < i
        invariant
            k <= i <= n,
            n == line@.len(),
            head@ == line@.subrange(0, k as int),
        decreases i - k,
    {
        head.push(line[k]);
        assert(head@ =~= line@.subrange(0, k + 1));
        k = k + 1;
    }
    let mut tail: Vec<u8> = Vec::new();
    if i < n {
        let mut m: usize = i + 1;
        while m < n
            invariant
                i + 1 <= m <= n,
                n == line@.len(),
                tail@ == line@.subrange(i + 1, m as int),
            decreases n - m,
        {
            tail.push(line[m]);
            assert(tail@ =~= line@.subrange(i + 1, m + 1));
            m = m + 1;
        }
    }
    proof {
        lemma_split_at_slash(line@, i as int);
        if i < n {
        } else {
            assert(tail@ =~= Seq::<u8>::empty());
        }
    }
    (head, tail)
}

/// Splits a text into its lines, as the line-oriented sources are read: a
/// line feed ends a line (a carriage return before it is dropped), and text
/// after the last line feed is a final line of its own.
pub fn split_lines(content: &Vec<u8>) -> (r: Vec<Vec<u8>>)
    ensures
        r.deep_view() == spec_lines(content@),
{
    let n = content.len();
    let mut out: Vec<Vec<u8>> = Vec::new();
    let mut cur: Vec<u8> = Vec::new();
    let mut i: usize = 0;
    proof {
        assert(content@.subrange(0, n as int) =~= content@);
    }
    while i < n
        invariant
            i <= n,
            n == content@.len(),
            spec_lines(content@) == out.deep_view() + lines_from(
                cur@,
                content@.subrange(i as int, n as int),
            ),
        decreases n - i,
    {
        let ghost rest = content@.subrange(i as int, n as int);
        proof {
            assert(rest.len() > 0 && rest[0] == content@[i as int]);
            assert(rest.drop_first() =~= content@.subrange(i + 1, n as int));
        }
        let b = content[i];
        if b == 10 {
            let ghost cur0 = cur@;
            if cur.len() > 0 && cur[cur.len() - 1] == 13 {
                let _dropped = cur.pop();
            }
            proof {
                assert(cur@ == strip_cr(cur0));
            }
            let ghost out0 = out.deep_view();
            out.push(cur);
            cur = Vec::new();
            proof {
                assert(out.deep_view() =~~= out0.push(strip_cr(cur0)));
                assert(lines_from(cur0, rest) == seq![strip_cr(cur0)] + lines_from(
                    Seq::<u8>::empty(),
                    rest.drop_first(),
                ));
                assert(out0 + lines_from(cur0, rest) =~= out.deep_view() + lines_from(
                    cur@,
                    rest.drop_first(),
                ));
            }
        } else {
            let ghost cur0 = cur@;
            cur.push(b);
            proof {
                assert(cur@ == cur0.push(rest[0]));
                assert(lines_from(cur0, rest) == lines_from(cur@, rest.drop_first()));
            }
        }
        i = i + 1;
    }
    proof {
        assert(content@.subrange(n as int, n as int) =~= Seq::<u8>::empty());
    }
    if cur.len() > 0 {
        let ghost out0 = out.deep_view();
        let ghost cur0 = cur@;
        out.push(cur);
        proof {
            assert(out.deep_view() =~~= out0.push(cur0));
            assert(out0 + lines_from(cur0, Seq::<u8>::empty()) =~= out.deep_view());
        }
    } else {
        proof {
            assert(out.deep_view() + lines_from(cur@, Seq::<u8>::empty()) =~= out.deep_view());
        }
    }
    out
}

/// The benchmarking target: the domain probed through each candidate and
/// the resource path fetched from it.
#[derive(Debug)]
pub struct Target {
    pub domain: Vec<u8>,
    pub path: Vec<u8>,
}

/// Reads the target descriptor out of the raw text of the descriptor file:
/// its first line, split at the first `/` into domain and resource path.
/// An empty file has nothing to benchmark and is rejected.
pub fn process_url_file(content: &Vec<u8>) -> (r: Result<Target, SourceError>)
    ensures
        r matches Ok(t) ==> spec_lines(content@).len() > 0 && t.domain@ == take_until_slash(
            spec_lines(content@)[0],
        ) && t.path@ == tail_after_slash(spec_lines(content@)[0]),
        r matches Err(e) ==> e == SourceError::MissingData && spec_lines(content@).len() == 0,
{
    let mut lines = split_lines(content);
    if lines.len() == 0 {
        return Err(SourceError::MissingData);
    }
    let first = lines.remove(0);
    proof {
        assert(first@ == spec_lines(content@)[0]);
    }
    let (domain, path) = split_first_slash(&first);
    Ok(Target { domain, path })
}

/// Reads the ordered candidate list out of the raw text of the list file:
/// one address per line, with anything from the first `/` on (a CIDR suffix)
/// discarded. An empty file has nothing to benchmark and is rejected.
pub fn process_ips_file(content: &Vec<u8>) -> (r: Result<Vec<Vec<u8>>, SourceError>)
    ensures
        r matches Ok(v) ==> spec_lines(content@).len() > 0 && v.deep_view() == spec_candidates(
            content@,
        ),
        r matches Err(e) ==> e == SourceError::MissingData && spec_lines(content@).len() == 0,
{
    let lines = split_lines(content);
    let n = lines.len();
    if n == 0 {
        return Err(SourceError::MissingData);
    }
    let mut out: Vec<Vec<u8>> = Vec::new();
    let mut i: usize = 0;
    while i < n
        invariant
            i <= n,
            n == lines.deep_view().len(),
            lines.deep_view() == spec_lines(content@),
            out.deep_view().len() == i,
            forall|j: int|
                0 <= j < i ==> out.deep_view()[j] == take_until_slash(lines.deep_view()[j]),
        decreases n - i,
    {
        let (head, _rest) = split_first_slash(&lines[i]);
        proof {
            assert(lines@[i as int]@ == lines.deep_view()[i as int]);
        }
        let ghost out0 = out.deep_view();
        out.push(head);
        proof {
            assert(out.deep_view() =~~= out0.push(take_until_slash(lines.deep_view()[i as int])));
        }
        i = i + 1;
    }
    proof {
        assert(out.deep_view() =~= spec_candidates(content@));
    }
    Ok(out)
}

/// Relies on rand's `SliceRandom::shuffle` (a Fisher-Yates shuffle by
/// in-place swaps): it permutes the slice, so exactly the original elements
/// remain, in some order drawn from the thread's generator.
#[verifier::external_body]
fn shuffle_in_place(v: &mut Vec<Vec<u8>>)
    ensures
        final(v).deep_view().to_multiset() == old(v).deep_view().to_multiset(),
        final(v)@.len() == old(v)@.len(),
{
    rand::seq::SliceRandom::shuffle(v.as_mut_slice(), &mut rand::thread_rng())
}

/// Randomizes the candidate order before dispatch, so a fixed ordering bias
/// in the source does not decide which candidates are probed first under the
/// concurrency cap. Exactly the original addresses remain.
pub fn shuffle_candidates(v: &mut Vec<Vec<u8>>)
    ensures
        final(v).deep_view().to_multiset() == old(v).deep_view().to_multiset(),
        final(v)@.len() == old(v)@.len(),
{
    shuffle_in_place(v)
}

/// Parsing the candidate source is a pure function of the input text: two
/// parses of the same content always yield the same ordered address
/// sequence. Together with the exact postcondition of `process_ips_file`,
/// this pins repeated parses down to one result.
pub proof fn lemma_parse_is_deterministic(a: Seq<u8>, b: Seq<u8>)
    requires
        a == b,
    ensures
        spec_candidates(a) == spec_candidates(b),
        spec_lines(a) == spec_lines(b),
{
}

} // verus!
