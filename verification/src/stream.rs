//! The pagination engine: an explicit state machine that turns a sequence of
//! fetched pages into one ordered, demand-driven stream of items.
//!
//! An [`ItemStream`] never performs a fetch itself.  [`ItemStream::pull`]
//! either yields the next buffered item, asks the caller to fetch a
//! continuation URL, yields one terminal failure, or reports the end; the
//! caller answers a fetch request with [`ItemStream::feed`].  Items come out
//! in page order and in order within each page, one page fetch is outstanding
//! at a time, and a caller that stops pulling causes no further fetch.

use vstd::prelude::*;

verus! {

/// Why a request failed.  The engine retries nothing; each failure is handed
/// to the caller where it occurred.
#[derive(Debug, PartialEq)]
pub enum ApiError {
    /// The connection could not be established or was interrupted.
    Transport(String),
    /// The server answered with an error status.
    Status(u16),
    /// The response body did not match the expected shape.
    Decode(String),
}

/// One fetched page: its items, and the continuation URL of the next page if
/// there is one.
pub struct Page<T> {
    pub items: Vec<T>,
    pub next: Option<String>,
}

/// The mathematical shape of a page.
#[verifier::ext_equal]
pub struct PageModel<T> {
    pub items: Seq<T>,
    pub next: Option<Seq<char>>,
}

impl<T> View for Page<T> {
    type V = PageModel<T>;

    open spec fn view(&self) -> PageModel<T> {
        PageModel {
            items: self.items@,
            next: match self.next {
                Some(u) => Some(u@),
                None => None,
            },
        }
    }
}

/// What one fetch came back with.
pub type PageOutcome<T> = Result<Page<T>, ApiError>;

/// The mathematical shape of one fetch outcome.
pub type OutcomeModel<T> = Result<PageModel<T>, ApiError>;

pub open spec fn spec_outcome<T>(o: PageOutcome<T>) -> OutcomeModel<T> {
    match o {
        Ok(p) => Ok(p@),
        Err(e) => Err(e),
    }
}

/// The states of the engine.
enum StreamState<T> {
    /// The next page must be fetched from this URL before an item can come.
    NeedsFetch { url: String },
    /// Items remain buffered from the current page; after them, `next` says
    /// whether another page follows.
    Buffered { items: Vec<T>, next: Option<String> },
    /// The last fetch failed; the failure has not been yielded yet.
    Failed { err: ApiError },
    /// Nothing further will be yielded.
    Done,
}

/// The mathematical shape of the engine's state.
#[verifier::ext_equal]
pub enum StreamModel<T> {
    NeedsFetch { url: Seq<char> },
    Buffered { items: Seq<T>, next: Option<Seq<char>> },
    Failed { err: ApiError },
    Done,
}

/// What one call to `pull` hands back.
pub enum Pulled<T> {
    /// The next item of the sequence.
    Item(T),
    /// No item is buffered: fetch this URL and answer with `feed`.
    Fetch(String),
    /// The terminal failure of the sequence; the stream then ends.
    Failure(ApiError),
    /// The sequence is over.
    End,
}

/// The mathematical shape of a `pull` result.
#[verifier::ext_equal]
pub enum PulledModel<T> {
    Item(T),
    Fetch(Seq<char>),
    Failure(ApiError),
    End,
}

impl<T> View for Pulled<T> {
    type V = PulledModel<T>;

    open spec fn view(&self) -> PulledModel<T> {
        match self {
            Pulled::Item(t) => PulledModel::Item(*t),
            Pulled::Fetch(u) => PulledModel::Fetch(u@),
            Pulled::Failure(e) => PulledModel::Failure(*e),
            Pulled::End => PulledModel::End,
        }
    }
}

/// The state and result after one `pull` on a stream in state `m`.
pub open spec fn spec_pull<T>(m: StreamModel<T>) -> (StreamModel<T>, PulledModel<T>) {
    match m {
        StreamModel::Done => (StreamModel::Done, PulledModel::End),
        StreamModel::Failed { err } => (StreamModel::Done, PulledModel::Failure(err)),
        StreamModel::NeedsFetch { url } => (
            StreamModel::NeedsFetch { url },
            PulledModel::Fetch(url),
        ),
        StreamModel::Buffered { items, next } => {
            if items.len() > 0 {
                (
                    StreamModel::Buffered { items: items.drop_first(), next },
                    PulledModel::Item(items[0]),
                )
            } else {
                match next {
                    Some(url) => (StreamModel::NeedsFetch { url }, PulledModel::Fetch(url)),
                    None => (StreamModel::Done, PulledModel::End),
                }
            }
        },
    }
}

/// The state after a fetch outcome is fed to a stream.
pub open spec fn spec_feed<T>(m: StreamModel<T>, o: OutcomeModel<T>) -> StreamModel<T> {
    match o {
        Ok(p) => StreamModel::Buffered { items: p.items, next: p.next },
        Err(e) => StreamModel::Failed { err: e },
    }
}

/// A lazy, forward-only sequence of items assembled from fetched pages.
pub struct ItemStream<T> {
    state: StreamState<T>,
}

impl<T> View for ItemStream<T> {
    type V = StreamModel<T>;

    closed spec fn view(&self) -> StreamModel<T> {
        match self.state {
            StreamState::NeedsFetch { url } => StreamModel::NeedsFetch { url: url@ },
            StreamState::Buffered { items, next } => StreamModel::Buffered {
                items: items@,
                next: match next {
                    Some(u) => Some(u@),
                    None => None,
                },
            },
            StreamState::Failed { err } => StreamModel::Failed { err },
            StreamState::Done => StreamModel::Done,
        }
    }
}

impl<T> ItemStream<T> {
    /// A stream whose first page has yet to be fetched from `url`.
    pub fn new(url: String) -> (r: ItemStream<T>)
        ensures
            r@ == (StreamModel::NeedsFetch::<T> { url: url@ }),
    {
        ItemStream { state: StreamState::NeedsFetch { url } }
    }

    /// True when the stream waits for the caller to fetch a page.
    pub fn awaiting(&self) -> (r: bool)
        ensures
            r == (self@ is NeedsFetch),
    {
        match self.state {
            StreamState::NeedsFetch { .. } => true,
            _ => false,
        }
    }

    /// Drive the stream one step.
    pub fn pull(&mut self) -> (r: Pulled<T>)
        ensures
            final(self)@ == spec_pull(old(self)@).0,
            r@ == spec_pull(old(self)@).1,
    {
        let mut st = StreamState::Done;
        core::mem::swap(&mut self.state, &mut st);
        match st {
            StreamState::Done => Pulled::End,
            StreamState::Failed { err } => Pulled::Failure(err),
            StreamState::NeedsFetch { url } => {
                let again = url.clone();
                self.state = StreamState::NeedsFetch { url };
                Pulled::Fetch(again)
            },
            StreamState::Buffered { mut items, next } => {
                if items.len() > 0 {
                    let t = items.remove(0);
                    proof {
                        assert(items@ =~= old(self)@->Buffered_items.drop_first());
                    }
                    self.state = StreamState::Buffered { items, next };
                    Pulled::Item(t)
                } else {
                    match next {
                        Some(url) => {
                            let target = url.clone();
                            self.state = StreamState::NeedsFetch { url };
                            Pulled::Fetch(target)
                        },
                        None => Pulled::End,
                    }
                }
            },
        }
    }

    /// Answer the outstanding fetch request with what the fetch produced.
    pub fn feed(&mut self, outcome: PageOutcome<T>)
        requires
            old(self)@ is NeedsFetch,
        ensures
            final(self)@ == spec_feed(old(self)@, spec_outcome(outcome)),
    {
        match outcome {
            Ok(p) => {
                self.state = StreamState::Buffered { items: p.items, next: p.next };
            },
            Err(e) => {
                self.state = StreamState::Failed { err: e };
            },
        }
    }
}

/// A canned page source: it hands out scripted outcomes in order, whatever
/// URL is asked for, and counts down what is left.  It stands in for a live
/// source in proofs and tests.
pub struct ScriptedSource<T> {
    pages: Vec<PageOutcome<T>>,
}

impl<T> View for ScriptedSource<T> {
    type V = Seq<OutcomeModel<T>>;

    closed spec fn view(&self) -> Seq<OutcomeModel<T>> {
        Seq::new(self.pages@.len(), |i: int| spec_outcome(self.pages@[i]))
    }
}

impl<T> ScriptedSource<T> {
    /// A source that will hand out the given outcomes in order.
    pub fn new(pages: Vec<PageOutcome<T>>) -> (r: ScriptedSource<T>)
        ensures
            r@.len() == pages@.len(),
            forall|i: int| 0 <= i < pages@.len() ==> r@[i] == spec_outcome(pages@[i]),
    {
        ScriptedSource { pages }
    }

    /// How many scripted outcomes have not been fetched yet.
    pub fn remaining(&self) -> (r: usize)
        ensures
            r == self@.len(),
    {
        self.pages.len()
    }

    /// Hand out the next scripted outcome.
    pub fn fetch(&mut self) -> (r: PageOutcome<T>)
        requires
            old(self)@.len() > 0,
        ensures
            spec_outcome(r) == old(self)@[0],
            final(self)@ == old(self)@.drop_first(),
    {
        let r = self.pages.remove(0);
        proof {
            assert(self@ =~= old(self)@.drop_first());
        }
        r
    }
}

/// True when the script ends the run on its own: some page before the end of
/// the script fails or carries no continuation.
pub open spec fn script_terminates<T>(s: Seq<OutcomeModel<T>>) -> bool
    decreases s.len(),
{
    s.len() > 0 && (match s[0] {
        Err(_) => true,
        Ok(p) => p.next is None || script_terminates(s.drop_first()),
    })
}

/// How many pages a full run fetches: every page up to and including the
/// first failed page or the first page without a continuation.
pub open spec fn script_run_len<T>(s: Seq<OutcomeModel<T>>) -> nat
    decreases s.len(),
{
    if s.len() == 0 {
        0
    } else {
        match s[0] {
            Err(_) => 1,
            Ok(p) => if p.next is None {
                1
            } else {
                1 + script_run_len(s.drop_first())
            },
        }
    }
}

/// A run never fetches more pages than the script holds.
pub proof fn lemma_script_run_len_le<T>(s: Seq<OutcomeModel<T>>)
    ensures
        script_run_len(s) <= s.len(),
    decreases s.len(),
{
    if s.len() > 0 {
        match s[0] {
            Err(_) => {},
            Ok(p) => {
                if p.next is Some {
                    lemma_script_run_len_le(s.drop_first());
                }
            },
        }
    }
}

/// Every item a full run yields, in page order and in order within each page.
pub open spec fn script_items<T>(s: Seq<OutcomeModel<T>>) -> Seq<T>
    decreases s.len(),
{
    if s.len() == 0 {
        Seq::empty()
    } else {
        match s[0] {
            Err(_) => Seq::empty(),
            Ok(p) => if p.next is None {
                p.items
            } else {
                p.items + script_items(s.drop_first())
            },
        }
    }
}

/// The failure a full run ends with, if any.
pub open spec fn script_failure<T>(s: Seq<OutcomeModel<T>>) -> Option<ApiError>
    decreases s.len(),
{
    if s.len() == 0 {
        None
    } else {
        match s[0] {
            Err(e) => Some(e),
            Ok(p) => if p.next is None {
                None
            } else {
                script_failure(s.drop_first())
            },
        }
    }
}

/// What a run still owes, given the stream's state: the items yet to come.
pub open spec fn config_items<T>(m: StreamModel<T>, s: Seq<OutcomeModel<T>>) -> Seq<T> {
    match m {
        StreamModel::NeedsFetch { .. } => script_items(s),
        StreamModel::Buffered { items, next } => items + (if next is Some {
            script_items(s)
        } else {
            Seq::empty()
        }),
        StreamModel::Failed { .. } => Seq::empty(),
        StreamModel::Done => Seq::empty(),
    }
}

/// The failure a run still owes, given the stream's state.
pub open spec fn config_failure<T>(m: StreamModel<T>, s: Seq<OutcomeModel<T>>) -> Option<
    ApiError,
> {
    match m {
        StreamModel::NeedsFetch { .. } => script_failure(s),
        StreamModel::Buffered { next, .. } => if next is Some {
            script_failure(s)
        } else {
            None
        },
        StreamModel::Failed { err } => Some(err),
        StreamModel::Done => None,
    }
}

/// How many fetches a run still makes, given the stream's state.
pub open spec fn config_fetches<T>(m: StreamModel<T>, s: Seq<OutcomeModel<T>>) -> nat {
    match m {
        StreamModel::NeedsFetch { .. } => script_run_len(s),
        StreamModel::Buffered { next, .. } => if next is Some {
            script_run_len(s)
        } else {
            0
        },
        StreamModel::Failed { .. } => 0,
        StreamModel::Done => 0,
    }
}

/// True when the script still in the source suffices to finish the run.
pub open spec fn config_ok<T>(m: StreamModel<T>, s: Seq<OutcomeModel<T>>) -> bool {
    match m {
        StreamModel::NeedsFetch { .. } => script_terminates(s),
        StreamModel::Buffered { next, .. } => next is Some ==> script_terminates(s),
        StreamModel::Failed { .. } => true,
        StreamModel::Done => true,
    }
}

pub open spec fn config_buffered<T>(m: StreamModel<T>) -> nat {
    match m {
        StreamModel::Buffered { items, .. } => items.len(),
        _ => 0,
    }
}

pub open spec fn config_rank<T>(m: StreamModel<T>) -> nat {
    match m {
        StreamModel::Done => 0,
        StreamModel::Failed { .. } => 1,
        StreamModel::NeedsFetch { .. } => 2,
        StreamModel::Buffered { .. } => 3,
    }
}

/// Consume a fresh stream to its end against a scripted source.  The run
/// yields exactly the scripted items in order, ends with the scripted failure
/// if there is one, and fetches each page of the run once: exactly
/// `script_run_len` pages leave the source, and the pages after the run are
/// never touched.
pub fn drain<T>(stream: &mut ItemStream<T>, source: &mut ScriptedSource<T>) -> (out: (
    Vec<T>,
    Option<ApiError>,
))
    requires
        old(stream)@ is NeedsFetch,
        script_terminates(old(source)@),
    ensures
        out.0@ == script_items(old(source)@),
        out.1 == script_failure(old(source)@),
        final(stream)@ is Done,
        final(source)@ == old(source)@.skip(script_run_len(old(source)@) as int),
{
    let mut items: Vec<T> = Vec::new();
    let mut failure: Option<ApiError> = None;
    proof {
        assert(items@ + config_items(stream@, source@) =~= script_items(old(source)@));
        assert(source@.skip(config_fetches(stream@, source@) as int) =~= old(source)@.skip(
            script_run_len(old(source)@) as int,
        ));
    }
    loop
        invariant
            config_ok(stream@, source@),
            items@ + config_items(stream@, source@) == script_items(old(source)@),
            match failure {
                None => config_failure(stream@, source@) == script_failure(old(source)@),
                Some(e) => stream@ is Done && script_failure(old(source)@) == Some(e),
            },
            source@.skip(config_fetches(stream@, source@) as int) == old(source)@.skip(
                script_run_len(old(source)@) as int,
            ),
        ensures
            stream@ is Done,
            items@ == script_items(old(source)@),
            failure == script_failure(old(source)@),
            source@ == old(source)@.skip(script_run_len(old(source)@) as int),
        decreases
                config_fetches(stream@, source@),
                config_buffered(stream@),
                config_rank(stream@),
    {
        let ghost pre_stream = stream@;
        let ghost pre_source = source@;
        match stream.pull() {
            Pulled::Item(t) => {
                items.push(t);
                proof {
                    let bi = pre_stream->Buffered_items;
                    assert(items@ + config_items(stream@, source@) =~= items@.drop_last() + (bi
                        + config_items(stream@, source@).skip(bi.len() - 1)));
                    assert(items@ + config_items(stream@, source@) =~= script_items(
                        old(source)@,
                    ));
                }
            },
            Pulled::Fetch(_url) => {
                let outcome = source.fetch();
                stream.feed(outcome);
                proof {
                    assert(pre_source.drop_first() =~= pre_source.skip(1));
                    match pre_source[0] {
                        Err(_) => {},
                        Ok(p) => {
                            if p.next is Some {
                                lemma_script_run_len_le::<T>(pre_source);
                                lemma_script_run_len_le::<T>(source@);
                                assert(source@.skip(config_fetches(stream@, source@) as int)
                                    =~= pre_source.skip(config_fetches(pre_stream, pre_source) as int));
                            }
                            assert(items@ + config_items(stream@, source@) =~= script_items(
                                old(source)@,
                            ));
                        },
                    }
                }
            },
            Pulled::Failure(e) => {
                failure = Some(e);
            },
            Pulled::End => {
                proof {
                    assert(items@ + config_items(stream@, source@) =~= items@);
                    assert(source@.skip(0) =~= source@);
                }
                break ;
            },
        }
    }
    (items, failure)
}

/// Law: over a script of pages that all succeed, where every page but the
/// last carries a continuation and the last does not, a full run yields the
/// pages' items concatenated in order, reports no failure, and fetches each
/// page exactly once.
pub proof fn lemma_run_all_ok<T>(s: Seq<OutcomeModel<T>>)
    requires
        s.len() > 0,
        forall|i: int| 0 <= i < s.len() ==> (#[trigger] s[i]) is Ok,
        forall|i: int| 0 <= i < s.len() - 1 ==> (#[trigger] s[i])->Ok_0.next is Some,
        s[s.len() - 1]->Ok_0.next is None,
    ensures
        script_terminates(s),
        script_run_len(s) == s.len(),
        script_failure(s) is None,
        script_items(s) == Seq::new(s.len(), |i: int| s[i]->Ok_0.items).flatten(),
    decreases s.len(),
{
    let pages = Seq::new(s.len(), |i: int| s[i]->Ok_0.items);
    if s.len() == 1 {
        pages.lemma_flatten_one_element();
        assert(pages.flatten() =~= script_items(s));
    } else {
        lemma_run_all_ok(s.drop_first());
        assert(Seq::new(s.drop_first().len(), |i: int| s.drop_first()[i]->Ok_0.items)
            =~= pages.drop_first());
        assert(pages.flatten() == pages.first() + pages.drop_first().flatten());
        assert(pages.flatten() =~= script_items(s));
    }
}

/// Law: when every page before `i` succeeds with a continuation and page `i`
/// fails, a full run yields the items of the pages before `i`, ends with
/// exactly that failure, and fetches no page past `i`.
pub proof fn lemma_run_fails_at<T>(s: Seq<OutcomeModel<T>>, i: int)
    requires
        0 <= i < s.len(),
        s[i] is Err,
        forall|j: int| 0 <= j < i ==> (#[trigger] s[j]) is Ok && s[j]->Ok_0.next is Some,
    ensures
        script_terminates(s),
        script_run_len(s) == i + 1,
        script_failure(s) == Some(s[i]->Err_0),
        script_items(s) == Seq::new(i as nat, |j: int| s[j]->Ok_0.items).flatten(),
    decreases i,
{
    let pages = Seq::new(i as nat, |j: int| s[j]->Ok_0.items);
    if i == 0 {
        assert(pages =~= Seq::<Seq<T>>::empty());
        assert(script_items(s) =~= pages.flatten());
    } else {
        lemma_run_fails_at(s.drop_first(), i - 1);
        assert(Seq::new((i - 1) as nat, |j: int| s.drop_first()[j]->Ok_0.items)
            =~= pages.drop_first());
        assert(pages.flatten() == pages.first() + pages.drop_first().flatten());
        assert(script_items(s) =~= pages.flatten());
    }
}

/// Law: feeding an empty page without continuation to a waiting stream ends
/// it at once: the next pull reports the end, after no items and no failure.
pub proof fn lemma_empty_page_ends<T>(url: Seq<char>)
    ensures
        ({
            let fed = spec_feed::<T>(
                StreamModel::NeedsFetch { url },
                Ok(PageModel { items: Seq::empty(), next: None }),
            );
            spec_pull(fed).0 is Done && spec_pull(fed).1 is End
        }),
{
}

} // verus!
