//! The per-message decision engine.
//!
//! One message runs through a fixed sequence of early exits — no
//! usable text, no sender, an automated sender, an allowlisted
//! sender — and only then is worth a classification call. The
//! classifier's outcome then decides: warn the chat about spam, or
//! credit the sender's reputation and promote them to the allowlist
//! at the threshold. The classification call itself is the caller's
//! concern: [`screen_message`] says whether to make it, [`decide`] consumes
//! its outcome.

use vstd::prelude::*;
use vstd::string::StrSliceExecFns;
use vstd::string::StringExecFns;

use crate::classifier::ClassifyOutcome;
use crate::config::Config;
use crate::decimal::{dec_digits, dec_i64, fmt_i64, fmt_u64};
use crate::state::{add_user_to_whitelist, increment_ham_counter, is_user_whitelisted, AppState};
use crate::reputation::{bumped, count_of};
use crate::telegram::Message;
use crate::text::{trim_spec, trim_str};
use crate::whitelist::line_seq;

verus! {

/// How much of a message's text is submitted for classification.
pub const MAX_CLASSIFY_CHARS: usize = 250;

/// One outbound notification the engine wants delivered: the target
/// chat, the text, and the message replied to, if any. Delivery is
/// fire-and-forget and outside the engine.
pub struct NotifyIntent {
    pub chat_id: i64,
    pub text: String,
    pub reply_to: Option<i64>,
}

/// What [`screen_message`] decided about one message.
pub enum ScreenDecision {
    /// No text, or only whitespace: nothing to classify.
    SkipNoText,
    /// No identifiable sender.
    SkipNoSender,
    /// The sender is an automated account.
    SkipBot,
    /// The sender is already allowlisted: no classification call.
    SkipAllowlisted,
    /// Classify this text on behalf of this sender.
    Classify { user_id: i64, text: String },
}

/// Whether the message has no usable text: none at all, or only
/// whitespace.
pub open spec fn no_usable_text(msg: Message) -> bool {
    match msg.text {
        None => true,
        Some(t) => trim_spec(t@).len() == 0,
    }
}

/// The message's text, empty when absent.
pub open spec fn msg_text_view(msg: Message) -> Seq<char> {
    match msg.text {
        None => Seq::<char>::empty(),
        Some(t) => t@,
    }
}

/// The sender's display handle, when the message has one.
pub open spec fn username_view(msg: Message) -> Option<Seq<char>> {
    match msg.from {
        None => None,
        Some(u) => match u.username {
            None => None,
            Some(un) => Some(un@),
        },
    }
}

/// Text capped at the classification length.
pub open spec fn clip(s: Seq<char>) -> Seq<char> {
    if s.len() <= MAX_CLASSIFY_CHARS as int {
        s
    } else {
        s.subrange(0, MAX_CLASSIFY_CHARS as int)
    }
}

/// What the screening decision must be for a given message and
/// allowlist: each early exit in order, and otherwise a
/// classification request carrying the sender and the trimmed,
/// capped text.
pub open spec fn screening_ok(msg: Message, allow: Set<i64>, d: ScreenDecision) -> bool {
    if no_usable_text(msg) {
        d is SkipNoText
    } else {
        match msg.from {
            None => d is SkipNoSender,
            Some(u) => if u.is_bot {
                d is SkipBot
            } else if allow.contains(u.id) {
                d is SkipAllowlisted
            } else {
                match d {
                    ScreenDecision::Classify { user_id, text } => user_id == u.id && text@ == clip(
                        trim_spec(msg_text_view(msg)),
                    ),
                    _ => false,
                }
            },
        }
    }
}

/// Runs the early-exit screening checks for one message. Reads the
/// state and mutates nothing: a skipped message leaves no trace. A
/// sender already in the allowlist is never sent to the classifier.
pub fn screen_message(msg: &Message, state: &AppState) -> (d: ScreenDecision)
    ensures
        screening_ok(*msg, state.whitelist.ids(), d),
{
    let text = match &msg.text {
        None => {
            return ScreenDecision::SkipNoText;
        },
        Some(t) => t,
    };
    let trimmed = trim_str(text.as_str());
    if trimmed.unicode_len() == 0 {
        return ScreenDecision::SkipNoText;
    }
    let user = match &msg.from {
        None => {
            return ScreenDecision::SkipNoSender;
        },
        Some(u) => u,
    };
    if user.is_bot {
        return ScreenDecision::SkipBot;
    }
    if is_user_whitelisted(user.id, state) {
        return ScreenDecision::SkipAllowlisted;
    }
    let clipped = if trimmed.unicode_len() > MAX_CLASSIFY_CHARS {
        trimmed.substring_char(0, MAX_CLASSIFY_CHARS)
    } else {
        trimmed
    };
    ScreenDecision::Classify { user_id: user.id, text: clipped.to_owned() }
}

/// The mention prefix of a warning, from the configured handle.
pub open spec fn mention_prefix(tag: Option<String>) -> Seq<char> {
    match tag {
        None => Seq::<char>::empty(),
        Some(u) => "@"@ + u@ + " "@,
    }
}

/// The warning sent to the chat when a message scores as spam: the
/// optional mention, then the score and the classifier's rationale.
pub open spec fn warn_text(tag: Option<String>, score: u8, notes: Seq<char>) -> Seq<char> {
    mention_prefix(tag) + "СПАМ ("@ + dec_digits(score as nat) + "%). Причина: "@ + notes
}

/// The optional acknowledgement of a counted non-spam message,
/// showing the running count.
pub open spec fn echo_text(n: u32) -> Seq<char> {
    "Не спам. Счётчик: "@ + dec_digits(n as nat)
}

/// How a promoted user is named: the handle when known, otherwise
/// the identifier.
pub open spec fn promo_user_tag(username: Option<Seq<char>>, user_id: i64) -> Seq<char> {
    match username {
        Some(u) => "@"@ + u,
        None => "id "@ + dec_i64(user_id as int),
    }
}

/// The promotion announcement, naming the user and the threshold.
pub open spec fn promo_text(username: Option<Seq<char>>, user_id: i64, threshold: u32) -> Seq<
    char,
> {
    "Пользователь "@ + promo_user_tag(username, user_id)
        + " добавлен в белый список после "@ + dec_digits(threshold as nat)
        + " корректных сообщений"@
}

fn warn_message(tag: &Option<String>, score: u8, notes: &String) -> (r: String)
    ensures
        r@ == warn_text(*tag, score, notes@),
{
    let mut s = String::new();
    match tag {
        Some(u) => {
            s.append("@");
            s.append(u.as_str());
            s.append(" ");
        },
        None => {},
    }
    s.append("СПАМ (");
    let d = fmt_u64(score as u64);
    s.append(d.as_str());
    s.append("%). Причина: ");
    s.append(notes.as_str());
    proof {
        assert(s@ =~= warn_text(*tag, score, notes@));
    }
    s
}

fn echo_message(n: u32) -> (r: String)
    ensures
        r@ == echo_text(n),
{
    let mut s = String::new();
    s.append("Не спам. Счётчик: ");
    let d = fmt_u64(n as u64);
    s.append(d.as_str());
    proof {
        assert(s@ =~= echo_text(n));
    }
    s
}

fn promo_message(username: &Option<String>, user_id: i64, threshold: u32) -> (r: String)
    ensures
        r@ == promo_text(
            match *username {
                Some(u) => Some(u@),
                None => None,
            },
            user_id,
            threshold,
        ),
{
    let mut s = String::new();
    s.append("Пользователь ");
    match username {
        Some(u) => {
            s.append("@");
            s.append(u.as_str());
        },
        None => {
            s.append("id ");
            let d = fmt_i64(user_id);
            s.append(d.as_str());
        },
    }
    s.append(" добавлен в белый список после ");
    let d = fmt_u64(threshold as u64);
    s.append(d.as_str());
    s.append(" корректных сообщений");
    proof {
        assert(s@ =~= promo_text(
            match *username {
                Some(u) => Some(u@),
                None => None,
            },
            user_id,
            threshold,
        ));
    }
    s
}

/// What [`decide`] produced for one classified message: the
/// notifications to deliver and the line owed to the durable
/// allowlist file, if the sender was promoted.
pub struct DecideOutput {
    pub notices: Vec<NotifyIntent>,
    pub whitelist_append: Option<String>,
}

/// The chat a promotion announcement goes to: the configured target,
/// or the originating chat.
pub open spec fn promo_target(notify_user_id: Option<i64>, chat_id: i64) -> i64 {
    match notify_user_id {
        Some(t) => t,
        None => chat_id,
    }
}

/// What [`decide`] must do, for every outcome of the classification
/// call.
///
/// An unavailable classification passes the message through: no
/// state change, no notification — the fail-open policy. A spam
/// score at or above the threshold yields exactly one warning and no
/// state change. A score below it increments the sender's count;
/// reaching the reputation threshold inserts the sender into the
/// allowlist, and a first insertion yields one durable append and
/// one promotion announcement — a repeated one yields neither.
pub open spec fn decide_ok(
    msg: Message,
    user_id: i64,
    outcome: ClassifyOutcome,
    pre: AppState,
    post: AppState,
    config: Config,
    notices: Seq<NotifyIntent>,
    append: Option<String>,
) -> bool {
    match outcome {
        ClassifyOutcome::Unavailable => {
            &&& state_unchanged(pre, post)
            &&& notices.len() == 0
            &&& append is None
        },
        ClassifyOutcome::Scored(llm) => {
            if llm.spam_score >= config.spam_threshold {
                &&& state_unchanged(pre, post)
                &&& append is None
                &&& notices.len() == 1
                &&& notices[0].chat_id == msg.chat.id
                &&& notices[0].reply_to == Some(msg.message_id)
                &&& notices[0].text@ == warn_text(config.tag_username, llm.spam_score, llm.notes@)
            } else {
                ham_decision_ok(msg, user_id, pre, post, config, notices, append)
            }
        },
    }
}

/// The ham branch of [`decide_ok`]: the count rises by one, and the
/// threshold decides promotion.
pub open spec fn ham_decision_ok(
    msg: Message,
    user_id: i64,
    pre: AppState,
    post: AppState,
    config: Config,
    notices: Seq<NotifyIntent>,
    append: Option<String>,
) -> bool {
    let n = bumped(count_of(pre.ham_counter.counts(), user_id));
    let promoted = n >= config.ham_threshold && !pre.whitelist.ids().contains(user_id);
    let base: int = if config.echo_ham {
        1
    } else {
        0
    };
    &&& post.ham_counter.counts() == pre.ham_counter.counts().insert(user_id, n)
    &&& post.whitelist.initial_content() == pre.whitelist.initial_content()
    &&& if n >= config.ham_threshold {
        &&& post.whitelist.ids() == pre.whitelist.ids().insert(user_id)
        &&& (append is Some <==> promoted)
        &&& if promoted {
            post.whitelist.journal_ids() == pre.whitelist.journal_ids().push(user_id)
        } else {
            post.whitelist.journal_ids() == pre.whitelist.journal_ids()
        }
        &&& match append {
            Some(l) => l@ == line_seq(user_id),
            None => true,
        }
    } else {
        &&& post.whitelist.ids() == pre.whitelist.ids()
        &&& post.whitelist.journal_ids() == pre.whitelist.journal_ids()
        &&& append is None
    }
    &&& notices.len() == base + if promoted {
        1int
    } else {
        0int
    }
    &&& config.echo_ham ==> {
        &&& notices[0].chat_id == msg.chat.id
        &&& notices[0].reply_to == Some(msg.message_id)
        &&& notices[0].text@ == echo_text(n)
    }
    &&& promoted ==> {
        &&& notices[base].chat_id == promo_target(config.notify_user_id, msg.chat.id)
        &&& notices[base].reply_to is None
        &&& notices[base].text@ == promo_text(username_view(msg), user_id, config.ham_threshold)
    }
}

/// Whether two states agree on everything the engine's contracts
/// speak of.
pub open spec fn state_unchanged(a: AppState, b: AppState) -> bool {
    &&& b.whitelist.ids() == a.whitelist.ids()
    &&& b.whitelist.journal_ids() == a.whitelist.journal_ids()
    &&& b.whitelist.initial_content() == a.whitelist.initial_content()
    &&& b.ham_counter.counts() == a.ham_counter.counts()
}

/// Applies one classification outcome for a message [`screen_message`] sent to
/// the classifier: the whole spam/ham policy in one step, as
/// [`decide_ok`] states it.
pub fn decide(
    msg: &Message,
    user_id: i64,
    outcome: &ClassifyOutcome,
    state: &mut AppState,
    config: &Config,
) -> (out: DecideOutput)
    requires
        old(state).whitelist.wf(),
    ensures
        final(state).whitelist.wf(),
        decide_ok(
            *msg,
            user_id,
            *outcome,
            *old(state),
            *final(state),
            *config,
            out.notices@,
            out.whitelist_append,
        ),
{
    match outcome {
        ClassifyOutcome::Unavailable => DecideOutput {
            notices: Vec::new(),
            whitelist_append: None,
        },
        ClassifyOutcome::Scored(llm) => {
            if llm.spam_score >= config.spam_threshold {
                let text = warn_message(&config.tag_username, llm.spam_score, &llm.notes);
                let mut notices: Vec<NotifyIntent> = Vec::new();
                notices.push(
                    NotifyIntent {
                        chat_id: msg.chat.id,
                        text,
                        reply_to: Some(msg.message_id),
                    },
                );
                DecideOutput { notices, whitelist_append: None }
            } else {
                let n = increment_ham_counter(user_id, state);
                let mut notices: Vec<NotifyIntent> = Vec::new();
                if config.echo_ham {
                    let text = echo_message(n);
                    notices.push(
                        NotifyIntent {
                            chat_id: msg.chat.id,
                            text,
                            reply_to: Some(msg.message_id),
                        },
                    );
                }
                let mut append: Option<String> = None;
                if n >= config.ham_threshold {
                    let line = add_user_to_whitelist(user_id, state);
                    match line {
                        Some(l) => {
                            let username: Option<String> = match &msg.from {
                                Some(u) => match &u.username {
                                    Some(un) => Some(un.clone()),
                                    None => None,
                                },
                                None => None,
                            };
                            let text = promo_message(&username, user_id, config.ham_threshold);
                            let target = match config.notify_user_id {
                                Some(t) => t,
                                None => msg.chat.id,
                            };
                            notices.push(
                                NotifyIntent { chat_id: target, text, reply_to: None },
                            );
                            append = Some(l);
                        },
                        None => {},
                    }
                }
                DecideOutput { notices, whitelist_append: append }
            }
        },
    }
}

/// The engine's state abstracted to what the laws speak of: the
/// allowlisted identifiers and the counter table.
pub struct ModState {
    pub allow: Set<i64>,
    pub counts: Map<i64, u32>,
}

/// The abstraction of a concrete engine state.
pub open spec fn app_model(s: AppState) -> ModState {
    ModState { allow: s.whitelist.ids(), counts: s.ham_counter.counts() }
}

/// One ham decision for a user: the count rises, and reaching the
/// threshold puts the user into the allowlist.
pub open spec fn ham_step_state(m: ModState, id: i64, threshold: u32) -> ModState {
    let n = bumped(count_of(m.counts, id));
    let c2 = m.counts.insert(id, n);
    if n >= threshold {
        ModState { allow: m.allow.insert(id), counts: c2 }
    } else {
        ModState { allow: m.allow, counts: c2 }
    }
}

/// Whether one ham decision emits a promotion announcement: the new
/// count reaches the threshold and the user was not yet allowlisted.
pub open spec fn ham_step_promoted(m: ModState, id: i64, threshold: u32) -> bool {
    let n = bumped(count_of(m.counts, id));
    n >= threshold && !m.allow.contains(id)
}

/// The state after a run of ham decisions for one user.
pub open spec fn ham_steps(m: ModState, id: i64, threshold: u32, k: nat) -> ModState
    decreases k,
{
    if k == 0 {
        m
    } else {
        ham_step_state(ham_steps(m, id, threshold, (k - 1) as nat), id, threshold)
    }
}

/// How many promotion announcements a run of ham decisions emits.
pub open spec fn promotions(m: ModState, id: i64, threshold: u32, k: nat) -> nat
    decreases k,
{
    if k == 0 {
        0
    } else {
        promotions(m, id, threshold, (k - 1) as nat) + if ham_step_promoted(
            ham_steps(m, id, threshold, (k - 1) as nat),
            id,
            threshold,
        ) {
            1nat
        } else {
            0nat
        }
    }
}

/// The ham branch of [`decide`] performs exactly one abstract ham
/// step: what the promotion law says of runs of steps therefore
/// holds of runs of calls.
pub proof fn lemma_decide_is_ham_step(
    msg: Message,
    user_id: i64,
    pre: AppState,
    post: AppState,
    config: Config,
    notices: Seq<NotifyIntent>,
    append: Option<String>,
)
    requires
        ham_decision_ok(msg, user_id, pre, post, config, notices, append),
    ensures
        app_model(post).allow == ham_step_state(app_model(pre), user_id, config.ham_threshold).allow,
        app_model(post).counts == ham_step_state(
            app_model(pre),
            user_id,
            config.ham_threshold,
        ).counts,
        (append is Some) == ham_step_promoted(app_model(pre), user_id, config.ham_threshold),
        notices.len() == (if config.echo_ham { 1int } else { 0int }) + (if ham_step_promoted(
            app_model(pre),
            user_id,
            config.ham_threshold,
        ) {
            1int
        } else {
            0int
        }),
{
}

/// Counts are monotonic and increments are never lost, and a user's
/// count reaching the threshold triggers exactly one promotion
/// announcement, however many further ham decisions follow: a run of
/// ham decisions for a user not yet allowlisted raises the count by
/// exactly the run's length, allowlists the user exactly when the
/// count reaches the threshold, and announces the promotion exactly
/// once on the run that reaches it.
pub proof fn lemma_single_promotion(m: ModState, id: i64, threshold: u32, k: nat)
    requires
        !m.allow.contains(id),
        threshold >= 1,
        count_of(m.counts, id) < threshold,
        count_of(m.counts, id) + k <= u32::MAX,
    ensures
        count_of(ham_steps(m, id, threshold, k).counts, id) as int == count_of(m.counts, id) + k,
        ham_steps(m, id, threshold, k).allow.contains(id) <==> count_of(m.counts, id) + k
            >= threshold,
        promotions(m, id, threshold, k) == if count_of(m.counts, id) + k >= threshold {
            1nat
        } else {
            0nat
        },
        count_of(m.counts, id) + k < threshold ==> ham_steps(m, id, threshold, k).allow == m.allow,
    decreases k,
{
    if k > 0 {
        lemma_single_promotion(m, id, threshold, (k - 1) as nat);
        let p = ham_steps(m, id, threshold, (k - 1) as nat);
        let c0 = count_of(m.counts, id);
        assert(count_of(p.counts, id) as int == c0 + k - 1);
        assert(bumped(count_of(p.counts, id)) as int == c0 + k);
        if c0 + k >= threshold {
            assert(ham_steps(m, id, threshold, k).allow.contains(id));
        }
    }
}

/// A message from an allowlisted sender is never sent to the
/// classifier, whatever else the message holds.
pub proof fn lemma_allowlisted_never_classified(msg: Message, allow: Set<i64>, d: ScreenDecision)
    requires
        screening_ok(msg, allow, d),
        msg.from matches Some(u) && allow.contains(u.id),
    ensures
        !(d is Classify),
{
}

/// A message with no usable text, no sender, or an automated sender
/// is never sent to the classifier; [`screen_message`] reads the state
/// without mutating it, and notifications only arise from
/// [`decide`], which is reached only on a classification request.
pub proof fn lemma_inert_message_skipped(msg: Message, allow: Set<i64>, d: ScreenDecision)
    requires
        screening_ok(msg, allow, d),
        no_usable_text(msg) || msg.from is None || (msg.from matches Some(u) && u.is_bot),
    ensures
        !(d is Classify),
{
}

} // verus!
