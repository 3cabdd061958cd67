//! The query client: one remote search per invocation, and the
//! mandatory ranking of its results.
//!
//! The client builds the exact parameter list of the request, and
//! post-processes what came back: every question's answers are
//! re-sorted by score descending with a stable tie-break on the
//! retrieval order, because the remote ordering is never trusted.
//! The transport itself is the caller's: it hands the outcome in as a
//! plain value and this module states what is returned for each one.

use vstd::prelude::*;

use crate::config::Config;
use crate::error::{Error, ErrorKind};

verus! {

/// One answer to a question, with a score that may be negative.
#[derive(Debug)]
pub struct Answer {
    pub id: u32,
    pub score: i32,
    pub body: String,
    pub is_accepted: bool,
}

/// The mathematical value of an [`Answer`].
pub struct AnswerV {
    pub id: u32,
    pub score: int,
    pub body: Seq<char>,
    pub is_accepted: bool,
}

impl View for Answer {
    type V = AnswerV;

    open spec fn view(&self) -> AnswerV {
        AnswerV {
            id: self.id,
            score: self.score as int,
            body: self.body@,
            is_accepted: self.is_accepted,
        }
    }
}

impl DeepView for Answer {
    type V = AnswerV;

    open spec fn deep_view(&self) -> AnswerV {
        self.view()
    }
}

impl Clone for Answer {
    fn clone(&self) -> (r: Answer)
        ensures
            r == *self,
    {
        Answer {
            id: self.id,
            score: self.score,
            body: self.body.clone(),
            is_accepted: self.is_accepted,
        }
    }
}

/// One question with its answers.
#[derive(Debug)]
pub struct Question {
    pub id: u32,
    pub score: i32,
    pub answers: Vec<Answer>,
    pub title: String,
    pub body: String,
}

/// The mathematical value of a [`Question`].
pub struct QuestionV {
    pub id: u32,
    pub score: int,
    pub answers: Seq<AnswerV>,
    pub title: Seq<char>,
    pub body: Seq<char>,
}

impl View for Question {
    type V = QuestionV;

    open spec fn view(&self) -> QuestionV {
        QuestionV {
            id: self.id,
            score: self.score as int,
            answers: self.answers.deep_view(),
            title: self.title@,
            body: self.body@,
        }
    }
}

impl DeepView for Question {
    type V = QuestionV;

    open spec fn deep_view(&self) -> QuestionV {
        self.view()
    }
}

/// Whether the scores of `s` never increase from one answer to the next.
pub open spec fn sorted_desc(s: Seq<AnswerV>) -> bool {
    forall|i: int, j: int| 0 <= i <= j < s.len() ==> s[i].score >= s[j].score
}

/// The subsequence of `s` whose answers have score `k`, in order.
pub open spec fn keep_score(s: Seq<AnswerV>, k: int) -> Seq<AnswerV>
    decreases s.len(),
{
    if s.len() == 0 {
        Seq::empty()
    } else {
        if s[0].score == k {
            seq![s[0]] + keep_score(s.drop_first(), k)
        } else {
            keep_score(s.drop_first(), k)
        }
    }
}

/// What ranking does to one question: everything is kept except the
/// order of its answers, which becomes non-increasing by score while
/// answers of equal score keep their original relative order.
pub open spec fn ranked(q0: QuestionV, q1: QuestionV) -> bool {
    &&& q1.id == q0.id
    &&& q1.score == q0.score
    &&& q1.title == q0.title
    &&& q1.body == q0.body
    &&& q1.answers.len() == q0.answers.len()
    &&& sorted_desc(q1.answers)
    &&& forall|k: int| #[trigger] keep_score(q1.answers, k) == keep_score(q0.answers, k)
}

/// Filtering by score distributes over concatenation.
proof fn lemma_keep_add(a: Seq<AnswerV>, b: Seq<AnswerV>, k: int)
    ensures
        keep_score(a + b, k) == keep_score(a, k) + keep_score(b, k),
    decreases a.len(),
{
    if a.len() == 0 {
        assert(a + b =~= b);
        assert(keep_score(a, k) + keep_score(b, k) =~= keep_score(b, k));
    } else {
        assert((a + b)[0] == a[0]);
        assert((a + b).drop_first() =~= a.drop_first() + b);
        lemma_keep_add(a.drop_first(), b, k);
        if a[0].score == k {
            assert(keep_score(a + b, k) =~= keep_score(a, k) + keep_score(b, k));
        } else {
            assert(keep_score(a + b, k) =~= keep_score(a, k) + keep_score(b, k));
        }
    }
}

/// A sequence without any answer of score `k` filters to nothing.
proof fn lemma_keep_none(s: Seq<AnswerV>, k: int)
    requires
        forall|t: int| 0 <= t < s.len() ==> s[t].score != k,
    ensures
        keep_score(s, k) == Seq::<AnswerV>::empty(),
    decreases s.len(),
{
    if s.len() > 0 {
        lemma_keep_none(s.drop_first(), k);
    }
}

/// Inserting an answer after every answer of score at least its own,
/// and before every lower-scored one, keeps the order sorted and
/// appends the answer to exactly its own score class.
proof fn lemma_stable_insert(s: Seq<AnswerV>, x: AnswerV, p: int)
    requires
        sorted_desc(s),
        0 <= p <= s.len(),
        forall|t: int| 0 <= t < p ==> s[t].score >= x.score,
        forall|t: int| p <= t < s.len() ==> s[t].score < x.score,
    ensures
        sorted_desc(s.insert(p, x)),
        forall|k: int| #[trigger] keep_score(s.insert(p, x), k) == (if k == x.score {
            keep_score(s, k) + seq![x]
        } else {
            keep_score(s, k)
        }),
{
    let ns = s.insert(p, x);
    assert(ns =~= s.take(p) + (seq![x] + s.skip(p)));
    assert(forall|t: int| 0 <= t < p ==> ns[t] == s[t]);
    assert(ns[p] == x);
    assert(forall|t: int| p < t < ns.len() ==> ns[t] == s[t - 1]);
    assert(sorted_desc(ns));
    assert(s =~= s.take(p) + s.skip(p));
    assert forall|k: int| #[trigger] keep_score(ns, k) == (if k == x.score {
        keep_score(s, k) + seq![x]
    } else {
        keep_score(s, k)
    }) by {
        lemma_keep_add(s.take(p), seq![x] + s.skip(p), k);
        lemma_keep_add(seq![x], s.skip(p), k);
        lemma_keep_add(s.take(p), s.skip(p), k);
        assert(seq![x].drop_first() =~= Seq::<AnswerV>::empty());
        assert(keep_score(Seq::<AnswerV>::empty(), k) == Seq::<AnswerV>::empty());
        if k == x.score {
            assert(keep_score(seq![x], k) =~= seq![x]);
            lemma_keep_none(s.skip(p), k);
            assert(keep_score(ns, k) =~= keep_score(s, k) + seq![x]);
        } else {
            assert(keep_score(seq![x], k) =~= Seq::<AnswerV>::empty());
            assert(keep_score(ns, k) =~= keep_score(s, k));
        }
    }
}

/// Filtering one more answer appends it to its own score class.
proof fn lemma_keep_snoc(s: Seq<AnswerV>, x: AnswerV, k: int)
    ensures
        keep_score(s.push(x), k) == keep_score(s, k) + (if x.score == k {
            seq![x]
        } else {
            Seq::<AnswerV>::empty()
        }),
{
    assert(s.push(x) =~= s + seq![x]);
    lemma_keep_add(s, seq![x], k);
    assert(seq![x].drop_first() =~= Seq::<AnswerV>::empty());
    assert(keep_score(Seq::<AnswerV>::empty(), k) == Seq::<AnswerV>::empty());
    if x.score == k {
        assert(keep_score(seq![x], k) =~= seq![x]);
    } else {
        assert(keep_score(seq![x], k) =~= Seq::<AnswerV>::empty());
    }
}

/// Sorts answers by score descending, stably: answers of equal score
/// keep their original relative order.
pub fn sort_answers(v: &Vec<Answer>) -> (r: Vec<Answer>)
    ensures
        r@.len() == v@.len(),
        sorted_desc(r.deep_view()),
        forall|k: int| #[trigger] keep_score(r.deep_view(), k) == keep_score(v.deep_view(), k),
{
    let ghost dvin = v.deep_view();
    let mut out: Vec<Answer> = Vec::new();
    proof {
        assert(out.deep_view() =~= Seq::<AnswerV>::empty());
        assert(dvin.take(0) =~= Seq::<AnswerV>::empty());
        assert forall|k: int| #[trigger] keep_score(out.deep_view(), k) == keep_score(
            dvin.take(0),
            k,
        ) by {}
    }
    let n = v.len();
    let mut i: usize = 0;
    while i < n
        invariant
            0 <= i <= n,
            n == v@.len(),
            dvin == v.deep_view(),
            out@.len() == i,
            sorted_desc(out.deep_view()),
            forall|k: int| #[trigger] keep_score(out.deep_view(), k) == keep_score(
                dvin.take(i as int),
                k,
            ),
        decreases n - i,
    {
        let x = v[i].clone();
        let ghost xv = dvin[i as int];
        proof {
            assert(x@ == xv);
        }
        let ghost dvout = out.deep_view();
        let mut j: usize = 0;
        while j < out.len() && out[j].score >= x.score
            invariant
                0 <= j <= out@.len(),
                dvout == out.deep_view(),
                x@ == xv,
                forall|t: int| 0 <= t < j ==> dvout[t].score >= xv.score,
            decreases out@.len() - j,
        {
            j = j + 1;
        }
        proof {
            if j < out@.len() {
                assert(dvout[j as int].score < xv.score);
                assert forall|t: int| j <= t < dvout.len() implies dvout[t].score
                    < xv.score by {
                    assert(dvout[j as int].score >= dvout[t].score);
                }
            }
            lemma_stable_insert(dvout, xv, j as int);
        }
        out.insert(j, x);
        proof {
            assert(out.deep_view() =~= dvout.insert(j as int, xv));
            lemma_keep_snoc(dvin.take(i as int), xv, xv.score);
            assert(dvin.take(i + 1) =~= dvin.take(i as int).push(xv));
            assert forall|k: int| #[trigger] keep_score(out.deep_view(), k) == keep_score(
                dvin.take(i + 1),
                k,
            ) by {
                lemma_keep_snoc(dvin.take(i as int), xv, k);
            }
        }
        i = i + 1;
    }
    proof {
        assert(dvin.take(n as int) =~= dvin);
    }
    out
}

/// The character of one decimal digit.
pub open spec fn digit_char(d: int) -> char {
    if d == 0 {
        '0'
    } else if d == 1 {
        '1'
    } else if d == 2 {
        '2'
    } else if d == 3 {
        '3'
    } else if d == 4 {
        '4'
    } else if d == 5 {
        '5'
    } else if d == 6 {
        '6'
    } else if d == 7 {
        '7'
    } else if d == 8 {
        '8'
    } else {
        '9'
    }
}

/// The decimal digits of a non-negative integer, most significant
/// first, without leading zeroes.
pub open spec fn dec_str(n: int) -> Seq<char>
    decreases n,
{
    if n < 10 {
        seq![digit_char(n)]
    } else {
        dec_str(n / 10).push(digit_char(n % 10))
    }
}

fn digit_char_x(d: u16) -> (c: char)
    requires
        d < 10,
    ensures
        c == digit_char(d as int),
{
    match d {
        0 => '0',
        1 => '1',
        2 => '2',
        3 => '3',
        4 => '4',
        5 => '5',
        6 => '6',
        7 => '7',
        8 => '8',
        _ => '9',
    }
}

/// The decimal digits of `n`.
fn dec_chars(n: u16) -> (r: Vec<char>)
    ensures
        r@ == dec_str(n as int),
    decreases n,
{
    if n < 10 {
        let mut v: Vec<char> = Vec::new();
        v.push(digit_char_x(n));
        proof {
            assert(v@ =~= seq![digit_char(n as int)]);
        }
        v
    } else {
        let mut v = dec_chars(n / 10);
        v.push(digit_char_x(n % 10));
        v
    }
}

/// The decimal rendering of `n`.
pub fn u16_string(n: u16) -> (r: String)
    ensures
        r@ == dec_str(n as int),
{
    let chars = dec_chars(n);
    crate::codec::chars_to_string(&chars)
}

/// The base of every request to the remote service.
pub open spec fn se_base_url() -> Seq<char> {
    "http://api.stackexchange.com/2.2/"@
}

/// The shaping-selector token that restricts response records to the
/// fields the data model needs.
pub open spec fn se_filter() -> Seq<char> {
    ".DND5X2VHHUH8HyJzpjo)5NvdHI3w6auG"@
}

/// The URL of one endpoint of the remote service.
pub fn stackexchange_url(path: &str) -> (r: String)
    ensures
        r@ == se_base_url() + path@,
{
    String::from_str("http://api.stackexchange.com/2.2/").concat(path)
}

/// What the decompressed payload of a compressed response body is.
pub uninterp spec fn gunzip_of(compressed: Seq<u8>) -> Seq<u8>;

/// Whether a byte sequence is valid compressed data: exactly the
/// inputs on which decompression succeeds.
pub uninterp spec fn gunzip_ok(compressed: Seq<u8>) -> bool;

/// Relies on flate2's `GzDecoder`: reading it to the end yields the
/// decompressed payload, a function of the compressed bytes alone, and
/// whether it succeeds is a function of them too; a body that is not
/// in the compressed format is an error carrying its message, never a
/// panic.
#[verifier::external_body]
fn gunzip(body: &Vec<u8>) -> (r: Result<Vec<u8>, String>)
    ensures
        r matches Ok(out) ==> out@ == gunzip_of(body@),
        r is Ok <==> gunzip_ok(body@),
{
    let mut decoder = flate2::read::GzDecoder::new(&body[..]);
    let mut out: Vec<u8> = Vec::new();
    match std::io::Read::read_to_end(&mut decoder, &mut out) {
        Ok(_) => Ok(out),
        Err(e) => Err(e.to_string()),
    }
}

/// Decompresses one response body.
///
/// Succeeds exactly on valid compressed data, returning the
/// decompressed bytes; anything else is a decode error carrying the
/// underlying message, terminal for the call.
pub fn decode_response(body: &Vec<u8>) -> (r: Result<Vec<u8>, Error>)
    ensures
        r is Ok <==> gunzip_ok(body@),
        r matches Ok(out) ==> out@ == gunzip_of(body@),
        r matches Err(e) ==> e.kind == ErrorKind::Decode,
{
    match gunzip(body) {
        Ok(out) => Ok(out),
        Err(message) => Err(Error::new(ErrorKind::Decode, message)),
    }
}

/// The outcome of the caller's transport and structural decode of one
/// search request, handed to [`StackExchange::search`].
pub enum FetchOutcome {
    /// The decoded questions, in the order the remote service returned
    /// them.
    Success(Vec<Question>),
    /// The transport failed; the underlying message.
    TransportFailure(String),
    /// The response did not match the expected shape; the underlying
    /// message.
    DecodeFailure(String),
}

/// The query client: executes one remote search for the configured
/// site, through parameters built here and post-processing done here.
pub struct StackExchange {
    pub config: Config,
}

impl StackExchange {
    /// A client for one invocation's configuration.
    pub fn new(config: Config) -> (s: StackExchange)
        ensures
            s.config == config,
    {
        StackExchange { config }
    }

    /// The full parameter list of one search request: the configured
    /// site (the first, when several are configured), the shaping
    /// selector, the free-text query, the result limit, first page
    /// only, answered questions only, ordered by relevance descending,
    /// and the API key when one is configured.
    pub fn search_params(&self, q: &str) -> (r: Vec<(String, String)>)
        requires
            self.config.wf(),
        ensures
            r@.len() == (match self.config.api_key {
                Some(_) => 9int,
                None => 8,
            }),
            r@[0].0@ == "site"@ && r@[0].1@ == self.config.sites@[0]@,
            r@[1].0@ == "filter"@ && r@[1].1@ == se_filter(),
            r@[2].0@ == "q"@ && r@[2].1@ == q@,
            r@[3].0@ == "pagesize"@ && r@[3].1@ == dec_str(self.config.limit as int),
            r@[4].0@ == "page"@ && r@[4].1@ == "1"@,
            r@[5].0@ == "answers"@ && r@[5].1@ == "1"@,
            r@[6].0@ == "order"@ && r@[6].1@ == "desc"@,
            r@[7].0@ == "sort"@ && r@[7].1@ == "relevance"@,
            match self.config.api_key {
                Some(k) => r@[8].0@ == "key"@ && r@[8].1@ == k@,
                None => true,
            },
    {
        let mut r: Vec<(String, String)> = Vec::new();
        r.push((String::from_str("site"), self.config.sites[0].clone()));
        r.push((String::from_str("filter"), String::from_str(".DND5X2VHHUH8HyJzpjo)5NvdHI3w6auG")));
        r.push((String::from_str("q"), String::from_str(q)));
        r.push((String::from_str("pagesize"), u16_string(self.config.limit)));
        r.push((String::from_str("page"), String::from_str("1")));
        r.push((String::from_str("answers"), String::from_str("1")));
        r.push((String::from_str("order"), String::from_str("desc")));
        r.push((String::from_str("sort"), String::from_str("relevance")));
        match &self.config.api_key {
            Some(k) => {
                r.push((String::from_str("key"), k.clone()));
            },
            None => {},
        }
        r
    }

    /// What one search returns for each outcome of the caller's
    /// transport: the questions with every answer list re-ranked, a
    /// remote error carrying the transport message verbatim, or a
    /// decode error carrying the decode message verbatim.  No retry,
    /// no partial result.
    pub fn search(&self, fetched: FetchOutcome) -> (r: Result<Vec<Question>, Error>)
        ensures
            match fetched {
                FetchOutcome::Success(qs) => (match r {
                    Ok(out) => out@.len() == qs@.len() && forall|i: int|
                        0 <= i < qs@.len() ==> ranked(
                            qs.deep_view()[i],
                            #[trigger] out.deep_view()[i],
                        ),
                    Err(_) => false,
                }),
                FetchOutcome::TransportFailure(m) => (match r {
                    Err(e) => e.kind == ErrorKind::Remote && e.error@ == m@,
                    Ok(_) => false,
                }),
                FetchOutcome::DecodeFailure(m) => (match r {
                    Err(e) => e.kind == ErrorKind::Decode && e.error@ == m@,
                    Ok(_) => false,
                }),
            },
    {
        match fetched {
            FetchOutcome::TransportFailure(m) => Err(Error::new(ErrorKind::Remote, m)),
            FetchOutcome::DecodeFailure(m) => Err(Error::new(ErrorKind::Decode, m)),
            FetchOutcome::Success(qs) => {
                let ghost dvin = qs.deep_view();
                let mut rest = qs;
                let mut out: Vec<Question> = Vec::new();
                while rest.len() > 0
                    invariant
                        out@.len() + rest@.len() == dvin.len(),
                        forall|t: int| 0 <= t < rest@.len() ==> rest.deep_view()[t] == dvin[t
                            + out@.len()],
                        forall|t: int| 0 <= t < out@.len() ==> ranked(
                            dvin[t],
                            #[trigger] out.deep_view()[t],
                        ),
                    decreases rest@.len(),
                {
                    let ghost pre_rest = rest.deep_view();
                    let ghost pre_out = out.deep_view();
                    let ghost pre_len = out@.len();
                    let q = rest.remove(0);
                    proof {
                        assert(rest.deep_view() =~= pre_rest.drop_first());
                    }
                    let sorted = sort_answers(&q.answers);
                    let ranked_q = Question {
                        id: q.id,
                        score: q.score,
                        answers: sorted,
                        title: q.title,
                        body: q.body,
                    };
                    proof {
                        assert(ranked_q@.answers =~= sorted.deep_view());
                        assert(ranked(q@, ranked_q@));
                    }
                    out.push(ranked_q);
                    proof {
                        assert(q@ == pre_rest[0]);
                        assert(out.deep_view() =~= pre_out.push(ranked_q@));
                        assert forall|t: int| 0 <= t < rest@.len() implies rest.deep_view()[t]
                            == dvin[t + out@.len()] by {
                            assert(rest.deep_view()[t] == pre_rest[t + 1]);
                            assert(pre_rest[t + 1] == dvin[(t + 1) + pre_len]);
                        }
                        assert forall|t: int| 0 <= t < out@.len() implies ranked(
                            dvin[t],
                            #[trigger] out.deep_view()[t],
                        ) by {
                            if t < pre_len {
                                assert(out.deep_view()[t] == pre_out[t]);
                            } else {
                                assert(out.deep_view()[t] == ranked_q@);
                                assert(dvin[t] == pre_rest[0]);
                            }
                        }
                    }
                }
                proof {
                    assert(out@.len() == dvin.len());
                }
                Ok(out)
            },
        }
    }
}

} // verus!
