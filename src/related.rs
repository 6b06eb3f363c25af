//! Resolving the links that a record holds to other records.
//!
//! A single link resolves to one request, or to none when it is empty. A
//! list of links resolves to one request per link; the answers may come back
//! in any order, and the records are handed out in the order of the links,
//! or the first failure is.
use vstd::prelude::*;

use crate::entity::Object;

verus! {

/// What resolving a single link asks for.
#[derive(Debug)]
pub enum Link {
    /// The link is empty: there is no related record and nothing to ask.
    Absent,
    /// The related record is found at this URL.
    Fetch(String),
}

/// `r` resolves a link to `url`: nothing is asked when `url` is empty, and
/// `url` itself otherwise.
pub open spec fn resolves(url: Seq<char>, r: Link) -> bool {
    &&& url.len() == 0 <==> r is Absent
    &&& r matches Link::Fetch(u) ==> u@ == url
}

impl Link {
    /// The request that resolves `obj`, or none when its URL is empty.
    pub fn of(obj: &Object) -> (r: Link)
        ensures
            resolves(obj.url@, r),
    {
        if obj.url.as_str().is_empty() {
            Link::Absent
        } else {
            Link::Fetch(obj.url.clone())
        }
    }
}

/// The URLs of `v` as character sequences.
pub open spec fn url_views(v: Seq<String>) -> Seq<Seq<char>> {
    v.map_values(|u: String| u@)
}

/// No request of `n` has been answered yet.
pub open spec fn unanswered<T>(n: nat) -> Seq<Option<T>> {
    Seq::new(n, |i: int| None)
}

/// Every request has been answered.
pub open spec fn all_answered<T>(a: Seq<Option<T>>) -> bool {
    forall|i: int| 0 <= i < a.len() ==> (#[trigger] a[i]) is Some
}

/// The answers, once every request has one.
pub open spec fn answered_values<T>(a: Seq<Option<T>>) -> Seq<T> {
    a.map_values(|o: Option<T>| o->Some_0)
}

/// The answers after the requests at the positions of `order` have been
/// answered, in that order, each request `k` with `vals[k]`.
pub open spec fn replay<T>(a: Seq<Option<T>>, order: Seq<int>, vals: Seq<T>) -> Seq<Option<T>>
    decreases order.len(),
{
    if order.len() == 0 {
        a
    } else {
        replay(a, order.drop_last(), vals).update(order.last(), Some(vals[order.last()]))
    }
}

/// `r` begins resolving the links `urls`: an empty list is resolved at once,
/// to no record; otherwise there is one unanswered request per link.
pub open spec fn begins<T, E>(urls: Seq<String>, r: Progress<T, E>) -> bool {
    &&& urls.len() == 0 ==> (r matches Progress::Done(v) && v@.len() == 0)
    &&& urls.len() > 0 ==> (r matches Progress::Waiting(f) && f.wf() && f.urls() == url_views(urls)
        && f.answers() == unanswered::<T>(urls.len()))
}

/// A list of links under resolution: one request per link, and the answers
/// received so far, each at the position of its link.
#[derive(Debug)]
pub struct Fanout<T> {
    urls: Vec<String>,
    answers: Vec<Option<T>>,
}

/// Where the resolution of a list of links stands after an event.
#[derive(Debug)]
pub enum Progress<T, E> {
    /// Some requests are still unanswered.
    Waiting(Fanout<T>),
    /// Every request was answered: the records, in the order of the links.
    Done(Vec<T>),
    /// A request failed, with this error; the others are abandoned.
    Failed(E),
}

fn copy_urls(urls: &Vec<String>) -> (r: Vec<String>)
    ensures
        url_views(r@) == url_views(urls@),
{
    let mut r: Vec<String> = Vec::new();
    let mut i: usize = 0;
    while i < urls.len()
        invariant
            i <= urls.len(),
            r@.len() == i,
            forall|k: int| 0 <= k < i ==> (#[trigger] r@[k])@ == urls@[k]@,
        decreases urls.len() - i,
    {
        r.push(urls[i].clone());
        i = i + 1;
    }
    assert(url_views(r@) =~= url_views(urls@));
    r
}

fn take_answers<T>(answers: Vec<Option<T>>) -> (r: Vec<T>)
    requires
        all_answered(answers@),
    ensures
        r@ == answered_values(answers@),
{
    let ghost all = answers@;
    let mut rest = answers;
    let mut out: Vec<T> = Vec::new();
    while rest.len() > 0
        invariant
            out@.len() + rest@.len() == all.len(),
            rest@ == all.skip(out@.len() as int),
            out@ =~= answered_values(all).take(out@.len() as int),
            all_answered(all),
        decreases rest.len(),
    {
        let o = rest.remove(0);
        assert(all[out@.len() as int] == o);
        out.push(o.unwrap());
        assert(rest@ =~= all.skip(out@.len() as int));
        assert(out@ =~= answered_values(all).take(out@.len() as int));
    }
    assert(answered_values(all).take(all.len() as int) =~= answered_values(all));
    out
}

impl<T> Fanout<T> {
    /// The links under resolution, one request each.
    pub closed spec fn urls(&self) -> Seq<Seq<char>> {
        url_views(self.urls@)
    }

    /// The answer received for each link, if any.
    pub closed spec fn answers(&self) -> Seq<Option<T>> {
        self.answers@
    }

    /// Each link has one place for its answer.
    pub open spec fn wf(&self) -> bool {
        self.answers().len() == self.urls().len()
    }

    /// Begins resolving `urls`; an empty list is resolved at once.
    pub fn start<E>(urls: &Vec<String>) -> (r: Progress<T, E>)
        ensures
            begins(urls@, r),
    {
        if urls.len() == 0 {
            return Progress::Done(Vec::new());
        }
        let mut answers: Vec<Option<T>> = Vec::new();
        let mut i: usize = 0;
        while i < urls.len()
            invariant
                i <= urls.len(),
                answers@ =~= unanswered::<T>(i as nat),
            decreases urls.len() - i,
        {
            answers.push(None);
            i = i + 1;
            assert(answers@ =~= unanswered::<T>(i as nat));
        }
        Progress::Waiting(Fanout { urls: copy_urls(urls), answers })
    }

    /// The requests to make: one per link, in the order of the links.
    pub fn requests(&self) -> (r: Vec<String>)
        ensures
            url_views(r@) == self.urls(),
    {
        copy_urls(&self.urls)
    }

    /// Whether the request at position `index` is still unanswered.
    pub fn is_awaiting(&self, index: usize) -> (r: bool)
        requires
            self.wf(),
        ensures
            r == (index < self.answers().len() && self.answers()[index as int] is None),
    {
        index < self.answers.len() && self.answers[index].is_none()
    }

    /// Takes in the outcome of the request at position `index`: a failure
    /// ends the resolution with that failure; a record takes its place, and
    /// once every request is answered the records come out in link order.
    pub fn on_response<E>(self, index: usize, outcome: Result<T, E>) -> (r: Progress<T, E>)
        requires
            self.wf(),
            index < self.urls().len(),
            self.answers()[index as int] is None,
        ensures
            outcome matches Err(e) ==> (r matches Progress::Failed(f) && f == e),
            outcome matches Ok(v) ==> {
                let a = self.answers().update(index as int, Some(v));
                if all_answered(a) {
                    r matches Progress::Done(rs) && rs@ == answered_values(a)
                } else {
                    r matches Progress::Waiting(f) && f.wf() && f.urls() == self.urls()
                        && f.answers() == a
                }
            },
    {
        match outcome {
            Err(e) => Progress::Failed(e),
            Ok(v) => {
                let mut fan = self;
                fan.answers.set(index, Some(v));
                let mut complete = true;
                let mut i: usize = 0;
                while i < fan.answers.len()
                    invariant
                        i <= fan.answers@.len(),
                        complete == (forall|k: int| 0 <= k < i ==> (#[trigger] fan.answers@[k]) is Some),
                    decreases fan.answers.len() - i,
                {
                    if fan.answers[i].is_none() {
                        complete = false;
                    }
                    i = i + 1;
                }
                if complete {
                    Progress::Done(take_answers(fan.answers))
                } else {
                    Progress::Waiting(fan)
                }
            },
        }
    }
}

/// Answering each of `n` requests, in any order, leaves every request
/// answered, and the records come out in the order of the requests, whatever
/// order the answers came in.
pub proof fn lemma_records_in_link_order<T>(n: nat, order: Seq<int>, vals: Seq<T>)
    requires
        vals.len() == n,
        forall|j: int| 0 <= j < order.len() ==> 0 <= #[trigger] order[j] < n,
        forall|k: int| 0 <= k < n ==> #[trigger] order.contains(k),
    ensures
        all_answered(replay(unanswered::<T>(n), order, vals)),
        answered_values(replay(unanswered::<T>(n), order, vals)) == vals,
{
    lemma_replay(n, order, vals);
    let a = replay(unanswered::<T>(n), order, vals);
    assert forall|k: int| 0 <= k < n implies #[trigger] a[k] == Some(vals[k]) by {
        assert(order.contains(k));
    }
    assert(answered_values(a) =~= vals);
}

proof fn lemma_replay<T>(n: nat, order: Seq<int>, vals: Seq<T>)
    requires
        forall|j: int| 0 <= j < order.len() ==> 0 <= #[trigger] order[j] < n,
    ensures
        replay(unanswered::<T>(n), order, vals).len() == n,
        forall|k: int|
            0 <= k < n ==> #[trigger] replay(unanswered::<T>(n), order, vals)[k] == if order.contains(
                k,
            ) {
                Some(vals[k])
            } else {
                None
            },
    decreases order.len(),
{
    if order.len() > 0 {
        let prev = order.drop_last();
        assert forall|j: int| 0 <= j < prev.len() implies 0 <= #[trigger] prev[j] < n by {
            assert(prev[j] == order[j]);
        }
        lemma_replay(n, prev, vals);
        assert forall|k: int| 0 <= k < n implies order.contains(k) == (prev.contains(k) || k
            == order.last()) by {
            if order.contains(k) {
                let j = choose|j: int| 0 <= j < order.len() && order[j] == k;
                if j < prev.len() {
                    assert(prev[j] == k);
                }
            }
            if prev.contains(k) {
                let j = choose|j: int| 0 <= j < prev.len() && prev[j] == k;
                assert(order[j] == k);
            }
            if k == order.last() {
                assert(order[order.len() - 1] == k);
            }
        }
    }
}

} // verus!
