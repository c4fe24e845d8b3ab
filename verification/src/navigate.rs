//! The form handshake that leads from a catalog link to a reader session. The
//! server answers with pages that hold a redirect form, to be sent back to the
//! address it names, until a page without one arrives: that page is the answer.
//!
//! The navigator decides; the caller sends what it is told to send and hands
//! back what came. Every request counts as one hop, the first one included.

use vstd::prelude::*;
use crate::errors::{
    parsed_view, Failure, FailureView, NavigationError, NetworkError, ParseError, ParseErrorView,
};
use crate::form::{form_fields, Form};
use crate::http::{is_success, status_ok, Reply, ReplyView};
use crate::pattern::{group, group_text, pairs_of, search, search_of, Groups};

verus! {

/// The address that a redirect form is to be sent to: group 1.
pub const ACTION_PATTERN: &'static str = r#"action='([^']+)'"#;

/// A hidden input of a redirect form: group 1 is its name, group 2 its value.
pub const INPUT_PATTERN: &'static str = r#"<input name='([^']+)' value='([^']*)'>"#;

/// The number of requests after which a handshake is given up.
pub const HOP_CEILING: usize = 8;

/// What a page of the handshake is.
#[derive(Debug, Clone, PartialEq, Eq)]
pub enum FormState {
    /// The page holds a redirect form.
    Redirecting { action_url: String, fields: Form },
    /// The page holds no redirect form: it is the answer.
    Final { body: String },
}

/// A `FormState` with texts as sequences of characters.
pub enum FormStateView {
    Redirecting { action_url: Seq<char>, fields: Seq<(Seq<char>, Seq<char>)> },
    Final { body: Seq<char> },
}

impl View for FormState {
    type V = FormStateView;

    open spec fn view(&self) -> FormStateView {
        match self {
            FormState::Redirecting { action_url, fields } => FormStateView::Redirecting {
                action_url: action_url@,
                fields: fields@,
            },
            FormState::Final { body } => FormStateView::Final { body: body@ },
        }
    }
}

/// A request that the caller is to send.
#[derive(Debug, Clone, PartialEq, Eq)]
pub enum Request {
    Get { url: String },
    /// The fields go out as form-encoded data.
    Post { url: String, fields: Form },
}

/// A `Request` with texts as sequences of characters.
pub enum RequestView {
    Get { url: Seq<char> },
    Post { url: Seq<char>, fields: Seq<(Seq<char>, Seq<char>)> },
}

impl View for Request {
    type V = RequestView;

    open spec fn view(&self) -> RequestView {
        match self {
            Request::Get { url } => RequestView::Get { url: url@ },
            Request::Post { url, fields } => RequestView::Post { url: url@, fields: fields@ },
        }
    }
}

/// What the navigator asks for next.
#[derive(Debug, Clone, PartialEq, Eq)]
pub enum Step {
    /// Send this request and hand back what comes.
    Send(Request),
    /// The handshake is over; this is the first page of the reader.
    Done(String),
}

/// A `Step` with texts as sequences of characters.
pub enum StepView {
    Send(RequestView),
    Done(Seq<char>),
}

impl View for Step {
    type V = StepView;

    open spec fn view(&self) -> StepView {
        match self {
            Step::Send(request) => StepView::Send(request@),
            Step::Done(body) => StepView::Done(body@),
        }
    }
}

/// The view of a step or of the failure in its place.
pub open spec fn outcome_view(r: Result<Step, Failure>) -> Result<StepView, FailureView> {
    match r {
        Ok(step) => Ok(step@),
        Err(e) => Err(e@),
    }
}

/// What a page is, given the matches of the two patterns in it: a page without
/// an action is final; otherwise the last action names the address, and the
/// inputs make the form.
pub open spec fn form_state_of(
    body: Seq<char>,
    action_matches: Seq<Seq<Option<Seq<char>>>>,
    input_matches: Seq<Seq<Option<Seq<char>>>>,
) -> FormStateView {
    if action_matches.len() == 0 {
        FormStateView::Final { body }
    } else {
        FormStateView::Redirecting {
            action_url: group_text(action_matches.last(), 1),
            fields: form_fields(pairs_of(input_matches)),
        }
    }
}

/// How far a handshake has come.
pub struct NavigatorView {
    /// The requests sent so far.
    pub hops: nat,
    /// The most requests that may be sent.
    pub ceiling: nat,
}

/// How far a handshake has come after its first request was asked for, and
/// whether the ceiling allowed the request.
pub open spec fn started(nav: NavigatorView) -> (NavigatorView, Result<(), NavigationError>) {
    if nav.hops < nav.ceiling {
        (NavigatorView { hops: nav.hops + 1, ceiling: nav.ceiling }, Ok(()))
    } else {
        (nav, Err(NavigationError::TooManyHops { ceiling: nav.ceiling as usize }))
    }
}

/// What the navigator does with an answer of status `status` whose page is
/// `state`, and how far the handshake has come after it.
pub open spec fn advanced(nav: NavigatorView, status: u16, state: FormStateView) -> (
    NavigatorView,
    Result<StepView, FailureView>,
) {
    if !status_ok(status) {
        (nav, Err(FailureView::Network(NetworkError::HttpStatus(status))))
    } else {
        match state {
            FormStateView::Final { body } => (nav, Ok(StepView::Done(body))),
            FormStateView::Redirecting { action_url, fields } => if nav.hops < nav.ceiling {
                (
                    NavigatorView { hops: nav.hops + 1, ceiling: nav.ceiling },
                    Ok(StepView::Send(RequestView::Post { url: action_url, fields })),
                )
            } else {
                (
                    nav,
                    Err(
                        FailureView::Navigation(
                            NavigationError::TooManyHops { ceiling: nav.ceiling as usize },
                        ),
                    ),
                )
            },
        }
    }
}

/// Says what a page is from the matches of `ACTION_PATTERN` and of
/// `INPUT_PATTERN` in it.
pub fn classify_page(
    body: String,
    action_matches: &Vec<Groups>,
    input_matches: &Vec<Groups>,
) -> (state: FormState)
    ensures
        state@ == form_state_of(body@, action_matches.deep_view(), input_matches.deep_view()),
{
    if action_matches.len() == 0 {
        FormState::Final { body }
    } else {
        let action_url = group(&action_matches[action_matches.len() - 1], 1);
        let fields = Form::from_matches(input_matches);
        FormState::Redirecting { action_url, fields }
    }
}

/// What a page is: `form_state_of` what the two patterns match in it. A
/// pattern that the matcher refuses is reported.
pub open spec fn page_state_in(body: Seq<char>) -> Result<FormStateView, ParseErrorView> {
    match search_of(ACTION_PATTERN@, body) {
        Err(e) => Err(e),
        Ok(action_matches) => match search_of(INPUT_PATTERN@, body) {
            Err(e) => Err(e),
            Ok(input_matches) => Ok(form_state_of(body, action_matches, input_matches)),
        },
    }
}

/// Says what a page is.
pub fn read_page(body: String) -> (r: Result<FormState, ParseError>)
    ensures
        parsed_view(r) == page_state_in(body@),
{
    let action_matches = match search(ACTION_PATTERN, body.as_str()) {
        Ok(found) => found,
        Err(e) => {
            return Err(e);
        },
    };
    let input_matches = match search(INPUT_PATTERN, body.as_str()) {
        Ok(found) => found,
        Err(e) => {
            return Err(e);
        },
    };
    Ok(classify_page(body, &action_matches, &input_matches))
}

/// The course of one handshake.
#[derive(Debug, Clone, Copy, PartialEq, Eq)]
pub struct FormNavigator {
    hops: usize,
    ceiling: usize,
}

impl View for FormNavigator {
    type V = NavigatorView;

    closed spec fn view(&self) -> NavigatorView {
        NavigatorView { hops: self.hops as nat, ceiling: self.ceiling as nat }
    }
}

impl FormNavigator {
    /// The requests sent never outnumber the ceiling.
    #[verifier::type_invariant]
    spec fn within_ceiling(self) -> bool {
        self.hops <= self.ceiling
    }

    /// A handshake of which nothing has been sent yet.
    pub fn new(ceiling: usize) -> (nav: FormNavigator)
        ensures
            nav@ == (NavigatorView { hops: 0, ceiling: ceiling as nat }),
    {
        FormNavigator { hops: 0, ceiling }
    }

    /// The requests sent so far.
    pub fn hops(&self) -> (n: usize)
        ensures
            n == self@.hops,
            n <= self@.ceiling,
    {
        proof {
            use_type_invariant(self);
        }
        self.hops
    }

    /// The most requests that may be sent.
    pub fn ceiling(&self) -> (n: usize)
        ensures
            n == self@.ceiling,
    {
        self.ceiling
    }

    /// Opens the handshake: the first request fetches the catalog link.
    pub fn start(&mut self, url: &str) -> (r: Result<Request, NavigationError>)
        ensures
            final(self)@ == started(old(self)@).0,
            match started(old(self)@).1 {
                Ok(()) => r matches Ok(request) && request@ == (RequestView::Get { url: url@ }),
                Err(e) => r == Err::<Request, NavigationError>(e),
            },
    {
        if self.hops < self.ceiling {
            self.hops = self.hops + 1;
            Ok(Request::Get { url: url.to_owned() })
        } else {
            Err(NavigationError::TooManyHops { ceiling: self.ceiling })
        }
    }

    /// Takes an answer whose page has been read, and says what comes next.
    pub fn advance(&mut self, status: u16, state: FormState) -> (r: Result<Step, Failure>)
        ensures
            (final(self)@, outcome_view(r)) == advanced(old(self)@, status, state@),
    {
        if !is_success(status) {
            return Err(Failure::Network(NetworkError::HttpStatus(status)));
        }
        match state {
            FormState::Final { body } => Ok(Step::Done(body)),
            FormState::Redirecting { action_url, fields } => {
                if self.hops < self.ceiling {
                    self.hops = self.hops + 1;
                    Ok(Step::Send(Request::Post { url: action_url, fields }))
                } else {
                    Err(Failure::Navigation(NavigationError::TooManyHops { ceiling: self.ceiling }))
                }
            },
        }
    }

    /// Takes what came of the last request, and says what comes next.
    ///
    /// A request that got no answer ends the handshake, and so does an answer
    /// with a status outside 200..=299, whose page is not read. Every other
    /// answer is read and handed to `advance`.
    pub fn on_reply(&mut self, reply: Reply) -> (r: Result<Step, Failure>)
        ensures
            match reply@ {
                ReplyView::Failed => outcome_view(r) == Err::<StepView, FailureView>(
                    FailureView::Network(NetworkError::Transport),
                ) && final(self)@ == old(self)@,
                ReplyView::TimedOut => outcome_view(r) == Err::<StepView, FailureView>(
                    FailureView::Network(NetworkError::Timeout),
                ) && final(self)@ == old(self)@,
                ReplyView::Answer { status, body } => if !status_ok(status) {
                    outcome_view(r) == Err::<StepView, FailureView>(
                        FailureView::Network(NetworkError::HttpStatus(status)),
                    ) && final(self)@ == old(self)@
                } else {
                    match page_state_in(body) {
                        Err(e) => outcome_view(r) == Err::<StepView, FailureView>(
                            FailureView::Parse(e),
                        ) && final(self)@ == old(self)@,
                        Ok(state) => (final(self)@, outcome_view(r)) == advanced(
                            old(self)@,
                            status,
                            state,
                        ),
                    }
                },
            },
    {
        match reply {
            Reply::Failed => Err(Failure::Network(NetworkError::Transport)),
            Reply::TimedOut => Err(Failure::Network(NetworkError::Timeout)),
            Reply::Answer { status, body } => {
                if !is_success(status) {
                    return Err(Failure::Network(NetworkError::HttpStatus(status)));
                }
                match read_page(body) {
                    Err(e) => Err(Failure::Parse(e)),
                    Ok(state) => self.advance(status, state),
                }
            },
        }
    }
}

/// What the server sends in answer to a request.
pub struct Served {
    pub status: u16,
    pub page: FormStateView,
}

/// How a handshake stands: how far it has come, and how it has ended, if it
/// has: with the first page of the reader, or with a failure.
pub struct Course {
    pub nav: NavigatorView,
    pub end: Option<Result<Seq<char>, FailureView>>,
}

/// A handshake after `start` on a new navigator.
pub open spec fn opened(ceiling: nat) -> Course {
    let (nav, allowed) = started(NavigatorView { hops: 0, ceiling });
    Course {
        nav,
        end: match allowed {
            Ok(()) => None,
            Err(e) => Some(Err(FailureView::Navigation(e))),
        },
    }
}

/// A handshake after one more answer. Once it has ended, nothing is sent, and
/// no answer changes it.
pub open spec fn followed(course: Course, served: Served) -> Course {
    if course.end is Some {
        course
    } else {
        let (nav, outcome) = advanced(course.nav, served.status, served.page);
        match outcome {
            Ok(StepView::Send(request)) => Course { nav, end: None },
            Ok(StepView::Done(body)) => Course { nav, end: Some(Ok(body)) },
            Err(e) => Course { nav, end: Some(Err(e)) },
        }
    }
}

/// A handshake after `start` and the answers `answers`, in their order.
pub open spec fn course_of(ceiling: nat, answers: Seq<Served>) -> Course
    decreases answers.len(),
{
    if answers.len() == 0 {
        opened(ceiling)
    } else {
        followed(course_of(ceiling, answers.drop_last()), answers.last())
    }
}

/// An answer that carries a redirect form and the status of a success.
pub open spec fn redirects(served: Served) -> bool {
    status_ok(served.status) && served.page is Redirecting
}

/// While every answer redirects and the ceiling is not reached, each answer is
/// followed by one more request.
pub proof fn lemma_redirects_are_followed(ceiling: nat, answers: Seq<Served>)
    requires
        answers.len() < ceiling,
        forall|i: int| 0 <= i < answers.len() ==> redirects(#[trigger] answers[i]),
    ensures
        course_of(ceiling, answers) == (Course {
            nav: NavigatorView { hops: answers.len() + 1, ceiling },
            end: None,
        }),
    decreases answers.len(),
{
    if answers.len() > 0 {
        let front = answers.drop_last();
        assert forall|i: int| 0 <= i < front.len() implies redirects(#[trigger] front[i]) by {
            assert(front[i] == answers[i]);
        }
        lemma_redirects_are_followed(ceiling, front);
        assert(redirects(answers[answers.len() - 1]));
    }
}

/// A handshake whose answers redirect until one brings a page without a form
/// ends with that page, after as many requests as there were answers,
/// provided that the ceiling allows as many.
pub proof fn lemma_final_page_ends_handshake(ceiling: nat, answers: Seq<Served>, body: Seq<char>)
    requires
        0 < answers.len() <= ceiling,
        forall|i: int| 0 <= i < answers.len() - 1 ==> redirects(#[trigger] answers[i]),
        status_ok(answers.last().status),
        answers.last().page == (FormStateView::Final { body }),
    ensures
        course_of(ceiling, answers) == (Course {
            nav: NavigatorView { hops: answers.len(), ceiling },
            end: Some(Ok(body)),
        }),
{
    let front = answers.drop_last();
    assert forall|i: int| 0 <= i < front.len() implies redirects(#[trigger] front[i]) by {
        assert(front[i] == answers[i]);
    }
    lemma_redirects_are_followed(ceiling, front);
}

/// A handshake whose answers all redirect is given up with `TooManyHops` once
/// there are as many answers as the ceiling allows requests; exactly that
/// many requests have then been sent, however many answers follow.
pub proof fn lemma_redirects_exhaust_ceiling(ceiling: nat, answers: Seq<Served>)
    requires
        ceiling <= usize::MAX,
        ceiling <= answers.len(),
        forall|i: int| 0 <= i < answers.len() ==> redirects(#[trigger] answers[i]),
    ensures
        course_of(ceiling, answers) == (Course {
            nav: NavigatorView { hops: ceiling, ceiling },
            end: Some(
                Err(
                    FailureView::Navigation(
                        NavigationError::TooManyHops { ceiling: ceiling as usize },
                    ),
                ),
            ),
        }),
    decreases answers.len(),
{
    if answers.len() > 0 {
        let front = answers.drop_last();
        assert forall|i: int| 0 <= i < front.len() implies redirects(#[trigger] front[i]) by {
            assert(front[i] == answers[i]);
        }
        assert(redirects(answers[answers.len() - 1]));
        if front.len() < ceiling {
            lemma_redirects_are_followed(ceiling, front);
        } else {
            lemma_redirects_exhaust_ceiling(ceiling, front);
        }
    }
}

/// An answer with a status that is no success ends the handshake with that
/// status, whatever the page holds and whatever follows.
pub proof fn lemma_bad_status_ends_handshake(ceiling: nat, answers: Seq<Served>, k: int)
    requires
        0 <= k < answers.len(),
        k < ceiling,
        forall|i: int| 0 <= i < k ==> redirects(#[trigger] answers[i]),
        !status_ok(answers[k].status),
    ensures
        course_of(ceiling, answers) == (Course {
            nav: NavigatorView { hops: (k + 1) as nat, ceiling },
            end: Some(Err(FailureView::Network(NetworkError::HttpStatus(answers[k].status)))),
        }),
    decreases answers.len(),
{
    let front = answers.drop_last();
    if k == answers.len() - 1 {
        assert forall|i: int| 0 <= i < front.len() implies redirects(#[trigger] front[i]) by {
            assert(front[i] == answers[i]);
        }
        lemma_redirects_are_followed(ceiling, front);
    } else {
        assert(front[k] == answers[k]);
        assert forall|i: int| 0 <= i < k implies redirects(#[trigger] front[i]) by {
            assert(front[i] == answers[i]);
        }
        lemma_bad_status_ends_handshake(ceiling, front, k);
    }
}

} // verus!
