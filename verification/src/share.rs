//! The flow that talks to the user: from benchmark results to consent, and from there
//! to a submission. It is a state machine, which is told what came of its last action
//! and says what the next one is.

use crate::github::{UPSTREAM_OWNER, UPSTREAM_REPO};
use crate::submission::BenchResult;
use crate::submit::{
    files_hold_the_payload, puts, submission_after, submission_start, submit_step, SubmitMove, Turn,
};
use crate::text::{
    ascii_lowercase, ascii_lowered, decimal, decimal_text, decimals_read_back, is_ascii_text,
    is_decimal_digit, joined, lowercase, number_read, option_text, same_text, trim, trimmed,
};
use vstd::prelude::*;
use vstd::string::*;

verus! {

/// Options controlling a `bench --share` invocation.
pub struct ShareOptions {
    /// Print the payload that would be submitted and exit without contacting GitHub.
    pub dry_run: bool,
    /// Skip the interactive confirmation prompt (assume "yes").
    pub assume_yes: bool,
}

/// The answers that count as consent, in lower case.
pub open spec fn is_consent(lowered: Seq<char>) -> bool {
    lowered == "y"@ || lowered == "yes"@
}

/// What the user typed counts as consent: "y" or "yes", in any case, with white
/// space around it or not.
pub open spec fn is_yes(line: Seq<char>) -> bool {
    is_consent(lowercase(trimmed(line)))
}

/// Whether an answer in lower case counts as consent.
pub fn consents(lowered: &str) -> (r: bool)
    ensures
        r == is_consent(lowered@),
{
    same_text(lowered, "y") || same_text(lowered, "yes")
}

/// The line reads "y" or "yes", in small letters or capitals, with white space around
/// it or not.
pub open spec fn reads_yes(line: Seq<char>) -> bool {
    is_consent(ascii_lowercase(trimmed(line)))
}

/// Of lines in ASCII, apart from the white space around them, exactly those that read
/// "y" or "yes" count as consent.
pub open spec fn goes_by_letters(line: Seq<char>) -> bool {
    is_ascii_text(trimmed(line)) ==> is_yes(line) == reads_yes(line)
}

/// Nothing but a "y" or a "yes" is consent, once the white space around it is off and it is in
/// lower case.
pub proof fn consent_is_y_or_yes(line: Seq<char>)
    ensures
        is_yes(line) <==> lowercase(trimmed(line)) == "y"@ || lowercase(trimmed(line)) == "yes"@,
{
}

/// Case does not matter: a line reads as a yes if and only if, letter by letter, it
/// does so in one of the two cases.
pub proof fn yes_may_be_in_any_case(line: Seq<char>)
    ensures
        reads_yes(line) <==> {
            let s = trimmed(line);
            ||| s.len() == 1 && (s[0] == 'y' || s[0] == 'Y')
            ||| s.len() == 3 && (s[0] == 'y' || s[0] == 'Y') && (s[1] == 'e' || s[1] == 'E') && (
            s[2] == 's' || s[2] == 'S')
        },
{
    reveal_strlit("y");
    reveal_strlit("yes");
    let s = trimmed(line);
    let t = ascii_lowercase(s);
    assert(forall|i: int| 0 <= i < s.len() ==> t[i] == ascii_lowered(#[trigger] s[i]));
    assert(t == "y"@ || t == "yes"@ ==> s.len() == t.len());
    if s.len() == 1 && t[0] == 'y' {
        assert(t =~= "y"@);
    }
    if s.len() == 3 && t[0] == 'y' && t[1] == 'e' && t[2] == 's' {
        assert(t =~= "yes"@);
    }
}

/// Whether the line that the user typed counts as consent.
pub fn confirm(line: &str) -> (r: bool)
    ensures
        r == is_yes(line@),
        goes_by_letters(line@),
{
    consents(trim(line).as_str().to_lowercase().as_str())
}

/// The question that the user is asked.
pub open spec fn share_question(count: nat) -> Seq<char> {
    "\n  Contribute "@ + decimal(count) + " result(s) as a PR to "@ + UPSTREAM_OWNER@ + "/"@
        + UPSTREAM_REPO@ + "?"@ + " [y/N] "@
}

/// The question that the user is asked about so many results.
pub fn share_prompt(count: usize) -> (prompt: String)
    ensures
        prompt@ == share_question(count as nat),
{
    let mut prompt = "\n  Contribute ".to_owned();
    prompt.append(decimal_text(count as u64).as_str());
    prompt.append(" result(s) as a PR to ");
    prompt.append(UPSTREAM_OWNER);
    prompt.append("/");
    prompt.append(UPSTREAM_REPO);
    prompt.append("?");
    prompt.append(" [y/N] ");
    prompt
}

/// How far sharing has come: what it waits for.
#[derive(Clone, Copy, PartialEq, Eq, Structural, Debug)]
pub enum ShareStage {
    /// The payload to be shown to the user.
    Showing,
    /// The answer of the user.
    Asking,
    /// A token.
    Resolving,
    /// The submission.
    Submitting,
    /// Nothing; sharing is over.
    Over,
}

/// Sharing under way.
#[derive(Debug)]
pub struct ShareFlow {
    /// How many results there are.
    pub count: usize,
    pub dry_run: bool,
    pub assume_yes: bool,
    /// The payload that the user was shown; empty until then.
    pub shown: String,
    pub stage: ShareStage,
}

/// Sharing under way, with the payload as a character sequence.
pub struct ShareModel {
    pub count: usize,
    pub dry_run: bool,
    pub assume_yes: bool,
    pub shown: Seq<char>,
    pub stage: ShareStage,
}

impl View for ShareFlow {
    type V = ShareModel;

    open spec fn view(&self) -> ShareModel {
        ShareModel {
            count: self.count,
            dry_run: self.dry_run,
            assume_yes: self.assume_yes,
            shown: self.shown@,
            stage: self.stage,
        }
    }
}

/// What came of the last action.
pub enum ShareEvent {
    /// The user was shown this payload, or it could not be rendered.
    Shown(Result<String, String>),
    /// The user typed this line, or it could not be read.
    Answered(Result<String, String>),
    /// There is a token, or a reason why there is none.
    Resolved(Result<String, String>),
    /// There is a pull request at this address, or a reason why there is none.
    Submitted(Result<String, String>),
}

/// What to do next.
pub enum ShareAction {
    /// Render the submission and show it to the user.
    Show,
    /// Ask the user this question.
    Ask(String),
    /// Resolve a token.
    Resolve,
    /// Submit the results with this token, as this payload.
    Submit { token: String, payload: String },
    /// Tell the user this, if it is anything, and return the outcome: the address of
    /// the pull request, or nothing if there is none by intention, or what failed.
    Finish { notice: &'static str, outcome: Result<Option<String>, String> },
}

/// An action, with its strings as character sequences.
pub enum ShareMove {
    Show,
    Ask(Seq<char>),
    Resolve,
    Submit { token: Seq<char>, payload: Seq<char> },
    Finish { notice: Seq<char>, outcome: Result<Option<Seq<char>>, Seq<char>> },
}

impl View for ShareAction {
    type V = ShareMove;

    open spec fn view(&self) -> ShareMove {
        match self {
            ShareAction::Show => ShareMove::Show,
            ShareAction::Ask(prompt) => ShareMove::Ask(prompt@),
            ShareAction::Resolve => ShareMove::Resolve,
            ShareAction::Submit { token, payload } => ShareMove::Submit {
                token: token@,
                payload: payload@,
            },
            ShareAction::Finish { notice, outcome } => ShareMove::Finish {
                notice: notice@,
                outcome: match outcome {
                    Ok(url) => Ok(option_text(*url)),
                    Err(e) => Err(e@),
                },
            },
        }
    }
}

/// Sharing that is over.
pub open spec fn over(
    flow: ShareModel,
    notice: Seq<char>,
    outcome: Result<Option<Seq<char>>, Seq<char>>,
) -> (ShareModel, ShareMove) {
    (ShareModel { stage: ShareStage::Over, ..flow }, ShareMove::Finish { notice, outcome })
}

/// Sharing that failed.
pub open spec fn failed(flow: ShareModel, error: Seq<char>) -> (ShareModel, ShareMove) {
    over(flow, ""@, Err(error))
}

/// How sharing begins: with showing the payload, if there is anything to share.
pub open spec fn share_start(count: usize, opts: ShareOptions) -> (ShareModel, ShareMove) {
    let flow = ShareModel {
        count,
        dry_run: opts.dry_run,
        assume_yes: opts.assume_yes,
        shown: Seq::empty(),
        stage: ShareStage::Showing,
    };
    if count == 0 {
        failed(flow, "no benchmark results to share"@)
    } else {
        (flow, ShareMove::Show)
    }
}

/// The event is one that the stage waits for.
pub open spec fn awaits(stage: ShareStage, event: ShareEvent) -> bool {
    match (stage, event) {
        (ShareStage::Showing, ShareEvent::Shown(_)) => true,
        (ShareStage::Asking, ShareEvent::Answered(_)) => true,
        (ShareStage::Resolving, ShareEvent::Resolved(_)) => true,
        (ShareStage::Submitting, ShareEvent::Submitted(_)) => true,
        _ => false,
    }
}

/// What follows from what came of the last action. An event that was not awaited
/// changes nothing and is answered by an empty failure.
pub open spec fn share_step(flow: ShareModel, event: ShareEvent) -> (ShareModel, ShareMove) {
    if !awaits(flow.stage, event) {
        (flow, ShareMove::Finish { notice: Seq::empty(), outcome: Err(Seq::empty()) })
    } else {
        match event {
            ShareEvent::Shown(Err(e)) => failed(flow, "serialize failed: "@ + e@),
            ShareEvent::Shown(Ok(payload)) => {
                let flow = ShareModel { shown: payload@, ..flow };
                if flow.dry_run {
                    over(flow, "\n  --dry-run: nothing was submitted."@, Ok(None))
                } else if flow.assume_yes {
                    (ShareModel { stage: ShareStage::Resolving, ..flow }, ShareMove::Resolve)
                } else {
                    (
                        ShareModel { stage: ShareStage::Asking, ..flow },
                        ShareMove::Ask(share_question(flow.count as nat)),
                    )
                }
            },
            ShareEvent::Answered(Err(e)) => failed(flow, "failed to read input: "@ + e@),
            ShareEvent::Answered(Ok(line)) => if is_yes(line@) {
                (ShareModel { stage: ShareStage::Resolving, ..flow }, ShareMove::Resolve)
            } else {
                over(flow, "  Cancelled."@, Ok(None))
            },
            ShareEvent::Resolved(Err(e)) => failed(flow, e@),
            ShareEvent::Resolved(Ok(token)) => (
                ShareModel { stage: ShareStage::Submitting, ..flow },
                ShareMove::Submit { token: token@, payload: flow.shown },
            ),
            ShareEvent::Submitted(Err(e)) => failed(flow, e@),
            ShareEvent::Submitted(Ok(url)) => over(flow, ""@, Ok(Some(url@))),
        }
    }
}

/// Build the submission, confirm with the user, then fork the repo, commit the
/// result file to a new branch, and open a pull request. Returns how that begins;
/// [`ShareFlow::next`] has the rest.
pub fn share_results(results: &Vec<BenchResult>, opts: &ShareOptions) -> (r: (
    ShareFlow,
    ShareAction,
))
    ensures
        (r.0@, r.1@) == share_start(results.len(), *opts),
{
    let mut flow = ShareFlow {
        count: results.len(),
        dry_run: opts.dry_run,
        assume_yes: opts.assume_yes,
        shown: "".to_owned(),
        stage: ShareStage::Showing,
    };
    proof {
        reveal_strlit("");
        assert(flow.shown@ == Seq::<char>::empty());
    }
    if results.len() == 0 {
        flow.stage = ShareStage::Over;
        return (
            flow,
            ShareAction::Finish {
                notice: "",
                outcome: Err("no benchmark results to share".to_owned()),
            },
        );
    }
    (flow, ShareAction::Show)
}

impl ShareFlow {
    /// What to do next, given what came of the last action.
    pub fn next(&mut self, event: ShareEvent) -> (action: ShareAction)
        requires
            awaits(old(self).stage, event),
        ensures
            (final(self)@, action@) == share_step(old(self)@, event),
            event matches ShareEvent::Answered(Ok(line)) ==> goes_by_letters(line@),
    {
        match event {
            ShareEvent::Shown(Err(e)) => self.fail(joined("serialize failed: ", e.as_str())),
            ShareEvent::Shown(Ok(payload)) => {
                self.shown = payload;
                if self.dry_run {
                    self.stage = ShareStage::Over;
                    ShareAction::Finish {
                        notice: "\n  --dry-run: nothing was submitted.",
                        outcome: Ok(None),
                    }
                } else if self.assume_yes {
                    self.stage = ShareStage::Resolving;
                    ShareAction::Resolve
                } else {
                    self.stage = ShareStage::Asking;
                    ShareAction::Ask(share_prompt(self.count))
                }
            },
            ShareEvent::Answered(Err(e)) => self.fail(
                joined("failed to read input: ", e.as_str()),
            ),
            ShareEvent::Answered(Ok(line)) => if confirm(line.as_str()) {
                self.stage = ShareStage::Resolving;
                ShareAction::Resolve
            } else {
                self.stage = ShareStage::Over;
                ShareAction::Finish { notice: "  Cancelled.", outcome: Ok(None) }
            },
            ShareEvent::Resolved(Err(e)) => self.fail(e),
            ShareEvent::Resolved(Ok(token)) => {
                self.stage = ShareStage::Submitting;
                ShareAction::Submit { token, payload: self.shown.as_str().to_owned() }
            },
            ShareEvent::Submitted(Err(e)) => self.fail(e),
            ShareEvent::Submitted(Ok(url)) => {
                self.stage = ShareStage::Over;
                ShareAction::Finish { notice: "", outcome: Ok(Some(url)) }
            },
        }
    }

    fn fail(&mut self, error: String) -> (action: ShareAction)
        ensures
            (final(self)@, action@) == failed(old(self)@, error@),
    {
        self.stage = ShareStage::Over;
        ShareAction::Finish { notice: "", outcome: Err(error) }
    }
}

// ---------------------------------------------------------------------------
// What sharing keeps to
// ---------------------------------------------------------------------------

/// Sharing after a series of events, and the last action.
pub open spec fn share_after(count: usize, opts: ShareOptions, events: Seq<ShareEvent>) -> (
    ShareModel,
    ShareMove,
)
    decreases events.len(),
{
    if events.len() == 0 {
        share_start(count, opts)
    } else {
        share_step(share_after(count, opts, events.drop_last()).0, events.last())
    }
}

/// The action reaches out to GitHub, or may do so.
pub open spec fn contacts_github(action: ShareMove) -> bool {
    action is Resolve || action is Submit
}

/// A dry run never contacts GitHub and never opens a pull request, whatever happens.
pub proof fn dry_runs_submit_nothing(count: usize, opts: ShareOptions, events: Seq<ShareEvent>)
    requires
        opts.dry_run,
    ensures
        ({
            let (flow, action) = share_after(count, opts, events);
            &&& !contacts_github(action)
            &&& !(action is Ask)
            &&& action matches ShareMove::Finish { outcome, .. } ==> outcome matches Ok(url)
                ==> url is None
            &&& flow.dry_run
            &&& flow.stage is Showing || flow.stage is Over
        }),
    decreases events.len(),
{
    if events.len() > 0 {
        dry_runs_submit_nothing(count, opts, events.drop_last());
    }
}

/// The user has agreed: one of the events is an answer that counts as consent.
pub open spec fn has_agreed(events: Seq<ShareEvent>) -> bool {
    exists|i: int|
        0 <= i < events.len() && (#[trigger] events[i] matches ShareEvent::Answered(Ok(line))
            && is_yes(line@))
}

/// Nothing is sent to GitHub without consent: unless the options say to go ahead,
/// the user has answered the question with a yes before.
pub proof fn nothing_is_sent_without_consent(
    count: usize,
    opts: ShareOptions,
    events: Seq<ShareEvent>,
)
    requires
        !opts.assume_yes,
    ensures
        ({
            let (flow, action) = share_after(count, opts, events);
            &&& contacts_github(action) ==> has_agreed(events)
            &&& flow.stage is Resolving || flow.stage is Submitting ==> has_agreed(events)
            &&& !flow.assume_yes
        }),
    decreases events.len(),
{
    if events.len() > 0 {
        let before = events.drop_last();
        nothing_is_sent_without_consent(count, opts, before);
        if has_agreed(before) {
            let i = choose|i: int|
                0 <= i < before.len() && (#[trigger] before[i] matches ShareEvent::Answered(
                    Ok(line),
                ) && is_yes(line@));
            assert(events[i] == before[i]);
        }
        assert(events[events.len() - 1] == events.last());
    }
}

/// The user was shown this text: one of the events says so.
pub open spec fn was_shown(events: Seq<ShareEvent>, text: Seq<char>) -> bool {
    exists|i: int|
        0 <= i < events.len() && (#[trigger] events[i] matches ShareEvent::Shown(Ok(payload))
            && payload@ == text)
}

/// What is submitted is what the user was shown: the payload that goes with the token
/// is, character by character, the text of the event that says what was shown.
pub proof fn what_is_submitted_was_shown(
    count: usize,
    opts: ShareOptions,
    events: Seq<ShareEvent>,
)
    ensures
        ({
            let (flow, action) = share_after(count, opts, events);
            &&& action matches ShareMove::Submit { payload, .. } ==> was_shown(events, payload)
            &&& flow.stage is Asking || flow.stage is Resolving || flow.stage is Submitting
                ==> was_shown(events, flow.shown)
        }),
    decreases events.len(),
{
    if events.len() > 0 {
        let before = events.drop_last();
        what_is_submitted_was_shown(count, opts, before);
        let shown = share_after(count, opts, before).0.shown;
        if was_shown(before, shown) {
            let i = choose|i: int|
                0 <= i < before.len() && (#[trigger] before[i] matches ShareEvent::Shown(
                    Ok(payload),
                ) && payload@ == shown);
            assert(events[i] == before[i]);
        }
        assert(events[events.len() - 1] == events.last());
    }
}

/// What is committed is what the user was shown: in a submission with the token and the
/// payload that sharing hands over, whatever the replies are, the only text that is
/// ever put into a file is one that the user was shown.
pub proof fn what_is_committed_was_shown(
    count: usize,
    opts: ShareOptions,
    events: Seq<ShareEvent>,
    results: Seq<BenchResult>,
    slug: Seq<char>,
    turns: Seq<Turn>,
    turn: Turn,
)
    ensures
        share_after(count, opts, events).1 matches ShareMove::Submit { token, payload } ==> {
            let start = submission_start(token, results, slug, payload);
            submit_step(
                submission_after(start, turns),
                turn.exchange,
                turn.hashed_at,
                turn.filed_at,
            ).1 matches SubmitMove::Send { request, .. } ==> request.method is Put ==> {
                &&& puts(request, payload)
                &&& was_shown(events, payload)
            }
        },
{
    if let ShareMove::Submit { token, payload } = share_after(count, opts, events).1 {
        what_is_submitted_was_shown(count, opts, events);
        files_hold_the_payload(submission_start(token, results, slug, payload), turns, turn);
    }
}

/// Whatever happens, a question that is asked about a number of results states that very
/// number.
pub proof fn questions_state_the_count(count: usize, opts: ShareOptions, events: Seq<ShareEvent>)
    ensures
        share_after(count, opts, events).1 matches ShareMove::Ask(prompt) ==> prompt
            == share_question(count as nat),
        share_after(count, opts, events).0.count == count,
    decreases events.len(),
{
    if events.len() > 0 {
        questions_state_the_count(count, opts, events.drop_last());
    }
}

/// The question names the number of results, in decimal, and the repository that they would
/// go to.
pub proof fn questions_name_count_and_repository(count: nat) -> (number: Seq<char>)
    ensures
        share_question(count) == "\n  Contribute "@ + number
            + " result(s) as a PR to AlexsJones/llmfit? [y/N] "@,
        number_read(number, 10) == count,
        number.len() > 0 && (number[0] == '0' ==> count == 0),
        forall|i: int| 0 <= i < number.len() ==> is_decimal_digit(#[trigger] number[i]),
{
    let number = decimal(count);
    decimals_read_back(count);
    reveal_strlit(" result(s) as a PR to ");
    reveal_strlit("AlexsJones");
    reveal_strlit("/");
    reveal_strlit("llmfit");
    reveal_strlit("?");
    reveal_strlit(" [y/N] ");
    reveal_strlit(" result(s) as a PR to AlexsJones/llmfit? [y/N] ");
    let rest = " result(s) as a PR to "@ + UPSTREAM_OWNER@ + "/"@ + UPSTREAM_REPO@ + "?"@
        + " [y/N] "@;
    assert(rest =~= " result(s) as a PR to AlexsJones/llmfit? [y/N] "@);
    assert(share_question(count) =~= "\n  Contribute "@ + number + rest);
    number
}

/// Questions about different numbers of results differ.
pub proof fn questions_tell_counts_apart(count: nat, other: nat)
    requires
        share_question(count) == share_question(other),
    ensures
        count == other,
{
    let a = questions_name_count_and_repository(count);
    let b = questions_name_count_and_repository(other);
    let head = "\n  Contribute "@;
    let tail = " result(s) as a PR to AlexsJones/llmfit? [y/N] "@;
    let n = head.len() as int;
    assert(share_question(count).len() == n + a.len() + tail.len());
    assert(share_question(other).len() == n + b.len() + tail.len());
    assert(share_question(count).subrange(n, n + a.len()) =~= a);
    assert(share_question(other).subrange(n, n + b.len()) =~= b);
}

/// Sharing goes its way: the payload is shown, the user is asked, unless the options say to
/// go ahead, a token is resolved, the payload is submitted with that token, and the address
/// of the pull request is what comes out.
pub proof fn sharing_goes_its_way(
    count: usize,
    opts: ShareOptions,
    payload: String,
    line: String,
    token: String,
    url: String,
)
    requires
        count > 0,
        !opts.dry_run,
    ensures
        ({
            let shown = ShareEvent::Shown(Ok(payload));
            let answered = ShareEvent::Answered(Ok(line));
            let resolved = ShareEvent::Resolved(Ok(token));
            let submitted = ShareEvent::Submitted(Ok(url));
            let (first, show) = share_start(count, opts);
            let (second, ask) = share_step(first, shown);
            let third = if opts.assume_yes {
                second
            } else {
                share_step(second, answered).0
            };
            let go_on = if opts.assume_yes {
                ask
            } else {
                share_step(second, answered).1
            };
            let (fourth, submit) = share_step(third, resolved);
            let (last, end) = share_step(fourth, submitted);
            &&& show is Show
            &&& ask is Ask <==> !opts.assume_yes
            &&& opts.assume_yes || is_yes(line@) ==> {
                &&& go_on is Resolve
                &&& submit == (ShareMove::Submit { token: token@, payload: payload@ })
                &&& end == (ShareMove::Finish { notice: ""@, outcome: Ok(Some(url@)) })
                &&& last.stage is Over
            }
            &&& !opts.assume_yes && !is_yes(line@) ==> {
                &&& go_on == (ShareMove::Finish { notice: "  Cancelled."@, outcome: Ok(None) })
                &&& third.stage is Over
            }
        }),
{
}

/// A dry run ends as soon as the payload was shown, with a notice and without an error.
pub proof fn dry_runs_end_after_showing(count: usize, opts: ShareOptions, payload: String)
    requires
        count > 0,
        opts.dry_run,
    ensures
        share_start(count, opts).1 is Show,
        share_step(share_start(count, opts).0, ShareEvent::Shown(Ok(payload))).1
            == (ShareMove::Finish {
            notice: "\n  --dry-run: nothing was submitted."@,
            outcome: Ok(None),
        }),
{
}

/// What goes wrong ends sharing, and the outcome is the error itself, with words before it
/// where the payload could not be rendered or the answer could not be read.
pub proof fn failures_end_sharing(flow: ShareModel, event: ShareEvent, e: String)
    requires
        awaits(flow.stage, event),
        event == ShareEvent::Shown(Err(e)) || event == ShareEvent::Answered(Err(e)) || event
            == ShareEvent::Resolved(Err(e)) || event == ShareEvent::Submitted(Err(e)),
    ensures
        share_step(flow, event).0.stage is Over,
        share_step(flow, event).1 == (ShareMove::Finish {
            notice: ""@,
            outcome: Err(
                if event is Shown {
                    "serialize failed: "@ + e@
                } else if event is Answered {
                    "failed to read input: "@ + e@
                } else {
                    e@
                },
            ),
        }),
{
}

/// Without results there is nothing to show, nothing to ask and nothing to send:
/// sharing is over at once, with an error.
pub proof fn nothing_to_share_is_an_error(opts: ShareOptions)
    ensures
        share_start(0, opts).0.stage is Over,
        share_start(0, opts).1 == (ShareMove::Finish {
            notice: ""@,
            outcome: Err("no benchmark results to share"@),
        }),
{
}

/// The outcome says what happened: an address if and only if the submission yielded
/// it; nothing, without an error, only after a dry run or a refusal.
pub proof fn outcomes_say_what_happened(flow: ShareModel, event: ShareEvent)
    requires
        awaits(flow.stage, event),
    ensures
        share_step(flow, event).1 matches ShareMove::Finish { outcome: Ok(Some(url)), .. } ==> (
        event matches ShareEvent::Submitted(Ok(address)) && address@ == url),
        event matches ShareEvent::Submitted(Ok(address)) ==> share_step(flow, event).1
            == (ShareMove::Finish { notice: ""@, outcome: Ok(Some(address@)) }),
        share_step(flow, event).1 matches ShareMove::Finish { outcome: Ok(None), .. } ==> {
            ||| event is Shown && flow.dry_run
            ||| event matches ShareEvent::Answered(Ok(line)) && !is_yes(line@)
        },
{
}

/// With the options to go ahead, the user is never asked.
pub proof fn going_ahead_asks_nothing(count: usize, opts: ShareOptions, events: Seq<ShareEvent>)
    requires
        opts.assume_yes,
    ensures
        !(share_after(count, opts, events).1 is Ask),
        share_after(count, opts, events).0.assume_yes,
    decreases events.len(),
{
    if events.len() > 0 {
        going_ahead_asks_nothing(count, opts, events.drop_last());
    }
}

} // verus!
