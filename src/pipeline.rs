//! One run, as a machine that is handed each outcome and answers with the next
//! thing to do: ask the model for a keyword, search, fetch the top pages one
//! by one, ask the model for the answer. The caller performs each action and
//! reports back; any failure ends the run.
use vstd::prelude::*;
use vstd::utf8::encode_utf8;
use crate::chat::ChatRequest;
use crate::chat::ChatRequestView;
use crate::chat::ANSWER_MAX_TOKENS;
use crate::chat::KEYWORD_MAX_TOKENS;
use crate::chat::answer_messages;
use crate::chat::answer_request;
use crate::chat::keyword_messages;
use crate::chat::keyword_request;
use crate::chat::trim_text;
use crate::chat::trimmed;
use crate::config::Config;
use crate::wiki::WikiError;
use crate::wiki::WikiPage;
use crate::wiki::WikiPageView;
use crate::wiki::extract_from_body;
use crate::wiki::extract_outcome;
use crate::wiki::extract_url;
use crate::wiki::extract_url_of;
use crate::wiki::pages_view;
use crate::wiki::search_outcome;
use crate::wiki::search_results_from_body;
use crate::wiki::search_url;
use crate::wiki::search_url_of;

verus! {

/// Where a run stands: the stage whose outcome it waits for.
#[derive(Debug, Clone, Copy, PartialEq, Eq, Structural)]
pub enum Stage {
    Keyword,
    Search,
    Fetch,
    Answer,
    Done,
}

/// Why a stage failed.
#[derive(Debug, Clone, PartialEq, Eq)]
pub enum Failure {
    /// The request could not be made or was refused; the words say why.
    Transport(String),
    /// The encyclopedia's response could not be used.
    Wiki(WikiError),
}

pub enum FailureView {
    Transport(Seq<char>),
    Wiki(WikiError),
}

impl View for Failure {
    type V = FailureView;

    open spec fn view(&self) -> FailureView {
        match self {
            Failure::Transport(m) => FailureView::Transport(m@),
            Failure::Wiki(e) => FailureView::Wiki(*e),
        }
    }
}

/// What the caller is to do next.
#[derive(Debug, Clone, PartialEq, Eq)]
pub enum Action {
    /// Send this request to the configured model and report its reply.
    Chat(ChatRequest),
    /// Fetch this URL and report the body.
    Fetch(String),
    /// The run is over with this answer; `None` where the model gave no content.
    Finish(Option<String>),
    /// The run is over: the search found no page.
    NoMatches,
    /// The run is over: the stage failed.
    Fail(Stage, Failure),
}

pub enum ActionView {
    Chat(ChatRequestView),
    Fetch(Seq<char>),
    Finish(Option<Seq<char>>),
    NoMatches,
    Fail(Stage, FailureView),
}

impl View for Action {
    type V = ActionView;

    open spec fn view(&self) -> ActionView {
        match self {
            Action::Chat(r) => ActionView::Chat(r@),
            Action::Fetch(u) => ActionView::Fetch(u@),
            Action::Finish(a) => ActionView::Finish(opt_view(*a)),
            Action::NoMatches => ActionView::NoMatches,
            Action::Fail(s, f) => ActionView::Fail(*s, f@),
        }
    }
}

/// The view of an optional text.
pub open spec fn opt_view(o: Option<String>) -> Option<Seq<char>> {
    match o {
        Some(s) => Some(s@),
        None => None,
    }
}

/// The exit status that reports how a run ended: zero for an answer, else
/// the failed stage's number.
pub open spec fn stage_code(stage: Stage) -> i32 {
    match stage {
        Stage::Keyword => 1,
        Stage::Search => 2,
        Stage::Fetch => 3,
        Stage::Answer => 4,
        Stage::Done => 0,
    }
}

/// The exit status for a run whose stage `stage` failed (zero for `Done`).
pub fn exit_code(stage: Stage) -> (r: i32)
    ensures
        r == stage_code(stage),
{
    match stage {
        Stage::Keyword => 1,
        Stage::Search => 2,
        Stage::Fetch => 3,
        Stage::Answer => 4,
        Stage::Done => 0,
    }
}

/// The state of a run.
pub struct Pipeline {
    pub config: Config,
    pub question: String,
    pub keyword: String,
    pub pages: Vec<WikiPage>,
    pub extracts: Vec<String>,
    pub stage: Stage,
}

pub struct PipelineView {
    pub config: Config,
    pub question: Seq<char>,
    pub keyword: Seq<char>,
    pub pages: Seq<WikiPageView>,
    pub extracts: Seq<Seq<char>>,
    pub stage: Stage,
}

/// The views of a list of texts.
pub open spec fn texts_view(ts: Seq<String>) -> Seq<Seq<char>> {
    ts.map_values(|t: String| t@)
}

impl View for Pipeline {
    type V = PipelineView;

    open spec fn view(&self) -> PipelineView {
        PipelineView {
            config: self.config,
            question: self.question@,
            keyword: self.keyword@,
            pages: pages_view(self.pages@),
            extracts: texts_view(self.extracts@),
            stage: self.stage,
        }
    }
}

/// How many pages a run fetches: the configured count, or fewer where the
/// search found fewer.
pub open spec fn fetch_target(s: PipelineView) -> int {
    if s.config.wiki_pages < s.pages.len() {
        s.config.wiki_pages as int
    } else {
        s.pages.len() as int
    }
}

/// The URL of the extract of the `i`-th result.
pub open spec fn page_url(s: PipelineView, i: int) -> Seq<char> {
    extract_url_of(encode_utf8(s.pages[i].page_id))
}

/// What holds of a run at each stage.
pub open spec fn run_wf(s: PipelineView) -> bool {
    &&& s.config.wf()
    &&& (s.stage == Stage::Keyword || s.stage == Stage::Search) ==> s.extracts.len() == 0
    &&& s.stage == Stage::Fetch ==> s.extracts.len() < fetch_target(s)
    &&& s.stage == Stage::Answer ==> s.extracts.len() == fetch_target(s)
}

/// The keyword searched for where the model gave no content.
pub open spec fn no_reply_keyword() -> Seq<char> {
    "No response"@
}

/// A run that has just been handed its question.
pub open spec fn start_state(config: Config, question: Seq<char>) -> PipelineView {
    PipelineView {
        config,
        question,
        keyword: Seq::empty(),
        pages: Seq::empty(),
        extracts: Seq::empty(),
        stage: Stage::Keyword,
    }
}

/// The request for the keyword of a run.
pub open spec fn keyword_request_of(s: PipelineView) -> ChatRequestView {
    ChatRequestView {
        model: s.config.model,
        max_tokens: KEYWORD_MAX_TOKENS,
        messages: keyword_messages(s.question),
    }
}

/// The request for the answer of a run.
pub open spec fn answer_request_of(s: PipelineView) -> ChatRequestView {
    ChatRequestView {
        model: s.config.model,
        max_tokens: ANSWER_MAX_TOKENS,
        messages: answer_messages(s.extracts, s.question),
    }
}

/// The keyword reply arrives: it is trimmed (a reply without content gives a
/// fixed keyword) and searched for.
pub open spec fn keyword_step(s: PipelineView, reply: Option<Seq<char>>) -> (
    PipelineView,
    ActionView,
) {
    let kw = match reply {
        Some(t) => trimmed(t),
        None => no_reply_keyword(),
    };
    (
        PipelineView { keyword: kw, stage: Stage::Search, ..s },
        ActionView::Fetch(search_url_of(encode_utf8(kw))),
    )
}

/// The search response arrives: an unreadable one fails the search; no
/// results end the run; else the first result's extract is fetched.
pub open spec fn search_step(s: PipelineView, body: Seq<char>) -> (PipelineView, ActionView) {
    match search_outcome(body) {
        Err(e) => (
            PipelineView { stage: Stage::Done, ..s },
            ActionView::Fail(Stage::Search, FailureView::Wiki(e)),
        ),
        Ok(ps) => if ps.len() == 0 {
            (PipelineView { pages: ps, stage: Stage::Done, ..s }, ActionView::NoMatches)
        } else {
            let s2 = PipelineView { pages: ps, stage: Stage::Fetch, ..s };
            (s2, ActionView::Fetch(page_url(s2, 0)))
        },
    }
}

/// An extract response arrives for the next page: an unreadable one, or one
/// without that page, fails the fetch; else the extract is kept and the next
/// page is fetched, or, with all fetched, the answer is asked for.
pub open spec fn extract_step(s: PipelineView, body: Seq<char>) -> (PipelineView, ActionView) {
    match extract_outcome(body, s.pages[s.extracts.len() as int].page_id) {
        Err(e) => (
            PipelineView { stage: Stage::Done, ..s },
            ActionView::Fail(Stage::Fetch, FailureView::Wiki(e)),
        ),
        Ok(t) => {
            let s2 = PipelineView { extracts: s.extracts.push(t), ..s };
            if s2.extracts.len() < fetch_target(s2) {
                (s2, ActionView::Fetch(page_url(s2, s2.extracts.len() as int)))
            } else {
                let s3 = PipelineView { stage: Stage::Answer, ..s2 };
                (s3, ActionView::Chat(answer_request_of(s3)))
            }
        },
    }
}

/// The answer arrives and ends the run.
pub open spec fn answer_step(s: PipelineView, reply: Option<Seq<char>>) -> (
    PipelineView,
    ActionView,
) {
    (PipelineView { stage: Stage::Done, ..s }, ActionView::Finish(reply))
}

/// The current stage's request failed: the run ends.
pub open spec fn failure_step(s: PipelineView, message: Seq<char>) -> (PipelineView, ActionView) {
    (
        PipelineView { stage: Stage::Done, ..s },
        ActionView::Fail(s.stage, FailureView::Transport(message)),
    )
}

impl Pipeline {
    /// Starts a run on a question as typed (surrounding white space is
    /// dropped) and asks for the keyword.
    pub fn new(config: Config, line: &str) -> (r: (Pipeline, Action))
        requires
            config.wf(),
        ensures
            r.0@ == start_state(config, trimmed(line@)),
            r.1@ == ActionView::Chat(keyword_request_of(r.0@)),
            run_wf(r.0@),
    {
        let question = trim_text(line);
        let request = keyword_request(config.model, question.as_str());
        let p = Pipeline {
            config,
            question,
            keyword: String::new(),
            pages: Vec::new(),
            extracts: Vec::new(),
            stage: Stage::Keyword,
        };
        proof {
            assert(pages_view(p.pages@) =~= Seq::empty());
            assert(texts_view(p.extracts@) =~= Seq::empty());
            assert(p@ =~= start_state(config, trimmed(line@)));
        }
        (p, Action::Chat(request))
    }

    /// Hands over the model's keyword reply (`None`: no content).
    pub fn on_keyword(&mut self, reply: Option<String>) -> (r: Action)
        requires
            old(self).stage == Stage::Keyword,
            run_wf(old(self)@),
        ensures
            (final(self)@, r@) == keyword_step(old(self)@, opt_view(reply)),
            run_wf(final(self)@),
    {
        let kw = match reply {
            Some(t) => trim_text(t.as_str()),
            None => "No response".to_owned(),
        };
        let url = search_url(kw.as_str());
        self.keyword = kw;
        self.stage = Stage::Search;
        proof {
            assert(self@ =~= keyword_step(old(self)@, opt_view(reply)).0);
        }
        Action::Fetch(url)
    }

    /// Hands over the body of the search response.
    pub fn on_search_body(&mut self, body: &str) -> (r: Action)
        requires
            old(self).stage == Stage::Search,
            run_wf(old(self)@),
        ensures
            (final(self)@, r@) == search_step(old(self)@, body@),
            run_wf(final(self)@),
    {
        match search_results_from_body(body) {
            Err(e) => {
                self.stage = Stage::Done;
                proof {
                    assert(self@ =~= search_step(old(self)@, body@).0);
                }
                Action::Fail(Stage::Search, Failure::Wiki(e))
            },
            Ok(ps) => {
                if ps.len() == 0 {
                    self.pages = ps;
                    self.stage = Stage::Done;
                    proof {
                        assert(self@ =~= search_step(old(self)@, body@).0);
                    }
                    Action::NoMatches
                } else {
                    let url = extract_url(ps[0].page_id.as_str());
                    self.pages = ps;
                    self.stage = Stage::Fetch;
                    proof {
                        assert(self@ =~= search_step(old(self)@, body@).0);
                    }
                    Action::Fetch(url)
                }
            },
        }
    }

    /// Hands over the body of the extract response for the page last asked for.
    pub fn on_extract_body(&mut self, body: &str) -> (r: Action)
        requires
            old(self).stage == Stage::Fetch,
            run_wf(old(self)@),
        ensures
            (final(self)@, r@) == extract_step(old(self)@, body@),
            run_wf(final(self)@),
    {
        let i = self.extracts.len();
        let ghost s0 = self@;
        match extract_from_body(body, &self.pages[i].page_id) {
            Err(e) => {
                self.stage = Stage::Done;
                proof {
                    assert(self@ =~= extract_step(s0, body@).0);
                }
                Action::Fail(Stage::Fetch, Failure::Wiki(e))
            },
            Ok(t) => {
                let ghost tv = t@;
                self.extracts.push(t);
                proof {
                    assert(texts_view(self.extracts@) =~= s0.extracts.push(tv));
                }
                let n = self.extracts.len();
                let target: usize = if (self.config.wiki_pages as usize) < self.pages.len() {
                    self.config.wiki_pages as usize
                } else {
                    self.pages.len()
                };
                if n < target {
                    let url = extract_url(self.pages[n].page_id.as_str());
                    proof {
                        assert(self@ =~= extract_step(s0, body@).0);
                    }
                    Action::Fetch(url)
                } else {
                    self.stage = Stage::Answer;
                    let request = answer_request(
                        self.config.model,
                        &self.extracts,
                        self.question.as_str(),
                    );
                    proof {
                        assert(self@ =~= extract_step(s0, body@).0);
                    }
                    Action::Chat(request)
                }
            },
        }
    }

    /// Hands over the model's answer (`None`: no content).
    pub fn on_answer(&mut self, reply: Option<String>) -> (r: Action)
        requires
            old(self).stage == Stage::Answer,
            run_wf(old(self)@),
        ensures
            (final(self)@, r@) == answer_step(old(self)@, opt_view(reply)),
            run_wf(final(self)@),
    {
        self.stage = Stage::Done;
        proof {
            assert(self@ =~= answer_step(old(self)@, opt_view(reply)).0);
        }
        Action::Finish(reply)
    }

    /// Reports that the current stage's request failed, with the reason.
    pub fn on_failure(&mut self, message: String) -> (r: Action)
        requires
            old(self).stage != Stage::Done,
            run_wf(old(self)@),
        ensures
            (final(self)@, r@) == failure_step(old(self)@, message@),
            run_wf(final(self)@),
    {
        let stage = self.stage;
        self.stage = Stage::Done;
        proof {
            assert(self@ =~= failure_step(old(self)@, message@).0);
        }
        Action::Fail(stage, Failure::Transport(message))
    }
}

/// The URLs fetched from state `s` on, whose pending action is `a`, when the
/// extract responses are `bodies` in turn.
pub open spec fn fetched_urls(s: PipelineView, a: ActionView, bodies: Seq<Seq<char>>) -> Seq<
    Seq<char>,
>
    decreases bodies.len(),
{
    match a {
        ActionView::Fetch(u) => if s.stage == Stage::Fetch && bodies.len() > 0 {
            let (s2, a2) = extract_step(s, bodies[0]);
            seq![u] + fetched_urls(s2, a2, bodies.drop_first())
        } else if s.stage == Stage::Fetch {
            seq![u]
        } else {
            Seq::empty()
        },
        _ => Seq::empty(),
    }
}

/// The smaller of two counts.
pub open spec fn min_count(a: int, b: int) -> int {
    if a < b {
        a
    } else {
        b
    }
}

/// With K pages configured and a search that found M pages, a run whose
/// fetches succeed fetches exactly min(K, M) extracts, those of the first
/// results, in result order.
pub proof fn lemma_fetches_follow_results(
    s: PipelineView,
    body: Seq<char>,
    pages: Seq<WikiPageView>,
    bodies: Seq<Seq<char>>,
)
    requires
        s.stage == Stage::Search,
        run_wf(s),
        search_outcome(body) == Ok::<Seq<WikiPageView>, WikiError>(pages),
        bodies.len() >= min_count(s.config.wiki_pages as int, pages.len() as int),
        forall|i: int|
            0 <= i < min_count(s.config.wiki_pages as int, pages.len() as int) ==> (
            #[trigger] extract_outcome(bodies[i], pages[i].page_id)) is Ok,
    ensures
        ({
            let (s1, a1) = search_step(s, body);
            fetched_urls(s1, a1, bodies) == Seq::new(
                min_count(s.config.wiki_pages as int, pages.len() as int) as nat,
                |i: int| extract_url_of(encode_utf8(pages[i].page_id)),
            )
        }),
{
    let (s1, a1) = search_step(s, body);
    let target = min_count(s.config.wiki_pages as int, pages.len() as int);
    let want = Seq::new(target as nat, |i: int| extract_url_of(encode_utf8(pages[i].page_id)));
    if pages.len() == 0 {
        assert(want =~= Seq::empty());
    } else {
        assert(fetch_target(s1) == target);
        lemma_fetches_from(s1, a1, bodies);
        assert(fetched_urls(s1, a1, bodies) =~= want);
    }
}

proof fn lemma_fetches_from(s: PipelineView, a: ActionView, bodies: Seq<Seq<char>>)
    requires
        s.stage == Stage::Fetch,
        run_wf(s),
        a == ActionView::Fetch(page_url(s, s.extracts.len() as int)),
        bodies.len() >= fetch_target(s) - s.extracts.len(),
        forall|i: int|
            0 <= i < fetch_target(s) - s.extracts.len() ==> (#[trigger] extract_outcome(
                bodies[i],
                s.pages[s.extracts.len() + i].page_id,
            )) is Ok,
    ensures
        fetched_urls(s, a, bodies) == Seq::new(
            (fetch_target(s) - s.extracts.len()) as nat,
            |i: int| page_url(s, s.extracts.len() + i),
        ),
    decreases bodies.len(),
{
    let k = s.extracts.len() as int;
    let n = fetch_target(s) - k;
    let want = Seq::new(n as nat, |i: int| page_url(s, k + i));
    assert(extract_outcome(bodies[0], s.pages[k + 0].page_id) is Ok);
    let (s2, a2) = extract_step(s, bodies[0]);
    assert(s2.pages == s.pages);
    assert(s2.extracts.len() == k + 1);
    assert(fetch_target(s2) == fetch_target(s));
    if k + 1 < fetch_target(s) {
        let rest = bodies.drop_first();
        assert forall|i: int| 0 <= i < fetch_target(s2) - s2.extracts.len() implies (
        #[trigger] extract_outcome(rest[i], s2.pages[s2.extracts.len() + i].page_id)) is Ok by {
            assert(rest[i] == bodies[i + 1]);
            assert(extract_outcome(bodies[i + 1], s.pages[k + (i + 1)].page_id) is Ok);
        }
        lemma_fetches_from(s2, a2, rest);
        let tail = Seq::new((n - 1) as nat, |i: int| page_url(s2, k + 1 + i));
        assert(fetched_urls(s2, a2, rest) =~= tail);
        assert(want =~= seq![page_url(s, k)] + tail);
    } else {
        assert(a2 is Chat);
        assert(fetched_urls(s2, a2, bodies.drop_first()) =~= Seq::empty());
        assert(want =~= seq![page_url(s, k)]);
        assert(fetched_urls(s, a, bodies) =~= seq![page_url(s, k)] + Seq::<Seq<char>>::empty());
    }
}

} // verus!
