//! The framing of a stored descriptor or ledger: a version line, then the
//! serialized body.
use vstd::prelude::*;
use vstd::string::*;
use crate::error::RepoError;

verus! {

/// The format version that this library writes and accepts.
pub open spec fn config_version() -> Seq<char> {
    seq!['0', '.', '0', '.', '5']
}

/// A stored file split at its first line break: the line before it and
/// everything after it. Without a line break the whole text is the line.
pub open spec fn split_header(t: Seq<char>) -> (Seq<char>, Seq<char>)
    decreases t.len(),
{
    if t.len() == 0 {
        (t, t)
    } else if t[0] == '\n' {
        (Seq::empty(), t.drop_first())
    } else {
        let rest = split_header(t.drop_first());
        (seq![t[0]] + rest.0, rest.1)
    }
}

/// The text stored for a serialized `body`.
pub open spec fn framed(body: Seq<char>) -> Seq<char> {
    config_version() + seq!['\n'] + body
}

/// What reading a stored text gives: its body when the version line matches.
pub open spec fn parsed(t: Seq<char>) -> Result<Seq<char>, RepoError> {
    if split_header(t).0 == config_version() {
        Ok(split_header(t).1)
    } else {
        Err(RepoError::Version)
    }
}

proof fn lemma_split_at_newline(h: Seq<char>, b: Seq<char>)
    requires
        forall|j: int| 0 <= j < h.len() ==> h[j] != '\n',
    ensures
        split_header(h + seq!['\n'] + b) == (h, b),
    decreases h.len(),
{
    let t = h + seq!['\n'] + b;
    if h.len() == 0 {
        assert(t[0] == '\n');
        assert(t.drop_first() =~= b);
        assert(h =~= Seq::<char>::empty());
    } else {
        let h2 = h.drop_first();
        lemma_split_at_newline(h2, b);
        assert(t.drop_first() =~= h2 + seq!['\n'] + b);
        assert(seq![h[0]] + h2 =~= h);
    }
}

proof fn lemma_split_without_newline(h: Seq<char>)
    requires
        forall|j: int| 0 <= j < h.len() ==> h[j] != '\n',
    ensures
        split_header(h) == (h, Seq::<char>::empty()),
    decreases h.len(),
{
    if h.len() == 0 {
        assert(h =~= Seq::<char>::empty());
    } else {
        let h2 = h.drop_first();
        lemma_split_without_newline(h2);
        assert(seq![h[0]] + h2 =~= h);
    }
}

/// Reading back what was framed gives the framed body unchanged.
pub proof fn lemma_frame_round_trip(body: Seq<char>)
    ensures
        parsed(framed(body)) == Ok::<Seq<char>, RepoError>(body),
{
    let v = config_version();
    assert(v.len() == 5);
    assert forall|j: int| 0 <= j < v.len() implies v[j] != '\n' by {}
    lemma_split_at_newline(v, body);
}

fn version_text() -> (r: &'static str)
    ensures
        r@ == config_version(),
{
    let v: &'static str = "0.0.5";
    proof {
        reveal_strlit("0.0.5");
    }
    assert(v@ =~= config_version());
    v
}

/// The text to store for a serialized `body`: the version line, then the body.
pub fn frame_config(body: &str) -> (r: String)
    ensures
        r@ == framed(body@),
{
    let mut r = version_text().to_owned();
    proof {
        reveal_strlit("\n");
    }
    r.append("\n");
    r.append(body);
    assert(r@ =~= framed(body@));
    r
}

/// The body of a stored text, or `Version` where its first line is not the
/// supported format version.
pub fn read_config_body(text: &str) -> (r: Result<String, RepoError>)
    ensures
        r matches Ok(b) ==> parsed(text@) == Ok::<Seq<char>, RepoError>(b@),
        r matches Err(e) ==> parsed(text@) == Err::<Seq<char>, RepoError>(e),
{
    let n = text.unicode_len();
    let mut k: usize = 0;
    while k < n && text.get_char(k) != '\n'
        invariant
            n == text@.len(),
            k <= n,
            forall|j: int| 0 <= j < k ==> text@[j] != '\n',
        decreases n - k,
    {
        k = k + 1;
    }
    let header = text.substring_char(0, k);
    let body = if k < n {
        proof {
            assert(text@ =~= text@.subrange(0, k as int) + seq!['\n'] + text@.subrange(k + 1, n as int));
            lemma_split_at_newline(text@.subrange(0, k as int), text@.subrange(k + 1, n as int));
        }
        text.substring_char(k + 1, n)
    } else {
        proof {
            assert(text@.subrange(0, k as int) =~= text@);
            lemma_split_without_newline(text@);
            assert(text@.subrange(n as int, n as int) =~= Seq::<char>::empty());
        }
        text.substring_char(n, n)
    };
    if header.to_owned() == version_text().to_owned() {
        Ok(body.to_owned())
    } else {
        Err(RepoError::Version)
    }
}

} // verus!
