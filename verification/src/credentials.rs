//! Resolution of credentials for a remote.
//!
//! A transport asks for credentials with the kinds of authentication that it
//! accepts. The resolver answers with the attempts to make, one at a time and
//! in a fixed order of priority: a bare user name, the platform's default
//! credential, a key from an SSH agent, a plain user name and password. The
//! caller makes each attempt and reports whether it gave a credential; the
//! resolver decides what follows. It makes no attempt of a kind that was not
//! asked for, and it keeps nothing from one request to the next.

use vstd::prelude::*;
use crate::text::option_view;

verus! {

/// A kind of authentication that a transport may accept.
#[derive(Clone, Copy, Debug, PartialEq, Eq, Structural)]
pub enum CredentialKind {
    UsernameOnly,
    PlatformDefault,
    SshKeyViaAgent,
    PlaintextUserPass,
}

/// The place of a kind in the order in which the kinds are tried.
pub open spec fn priority(kind: CredentialKind) -> nat {
    match kind {
        CredentialKind::UsernameOnly => 0,
        CredentialKind::PlatformDefault => 1,
        CredentialKind::SshKeyViaAgent => 2,
        CredentialKind::PlaintextUserPass => 3,
    }
}

/// A set of kinds of authentication.
#[derive(Clone, Copy, Debug, PartialEq, Eq, Structural)]
pub struct CredentialKinds {
    username_only: bool,
    platform_default: bool,
    ssh_key_via_agent: bool,
    plaintext_user_pass: bool,
}

impl CredentialKinds {
    spec fn has(self, kind: CredentialKind) -> bool {
        match kind {
            CredentialKind::UsernameOnly => self.username_only,
            CredentialKind::PlatformDefault => self.platform_default,
            CredentialKind::SshKeyViaAgent => self.ssh_key_via_agent,
            CredentialKind::PlaintextUserPass => self.plaintext_user_pass,
        }
    }
}

impl View for CredentialKinds {
    type V = Set<CredentialKind>;

    closed spec fn view(&self) -> Set<CredentialKind> {
        Set::new(|kind: CredentialKind| self.has(kind))
    }
}

impl CredentialKinds {
    /// The set without any kind.
    pub fn empty() -> (kinds: CredentialKinds)
        ensures
            kinds@ == Set::<CredentialKind>::empty(),
    {
        let kinds = CredentialKinds {
            username_only: false,
            platform_default: false,
            ssh_key_via_agent: false,
            plaintext_user_pass: false,
        };
        assert(kinds@ =~= Set::<CredentialKind>::empty());
        kinds
    }

    /// The set that holds `kind` and nothing else.
    pub fn only(kind: CredentialKind) -> (kinds: CredentialKinds)
        ensures
            kinds@ == set![kind],
    {
        let kinds = CredentialKinds::empty().with(kind);
        assert(kinds@ =~= set![kind]);
        kinds
    }

    /// This set with `kind` added.
    pub fn with(self, kind: CredentialKind) -> (kinds: CredentialKinds)
        ensures
            kinds@ == self@.insert(kind),
    {
        let mut kinds = self;
        match kind {
            CredentialKind::UsernameOnly => kinds.username_only = true,
            CredentialKind::PlatformDefault => kinds.platform_default = true,
            CredentialKind::SshKeyViaAgent => kinds.ssh_key_via_agent = true,
            CredentialKind::PlaintextUserPass => kinds.plaintext_user_pass = true,
        }
        assert forall|other: CredentialKind| kinds.has(other) == (self.has(other) || other
            == kind) by {}
        assert(kinds@ =~= self@.insert(kind));
        kinds
    }

    /// Whether `kind` is in the set.
    pub fn contains(&self, kind: CredentialKind) -> (found: bool)
        ensures
            found == self@.contains(kind),
    {
        match kind {
            CredentialKind::UsernameOnly => self.username_only,
            CredentialKind::PlatformDefault => self.platform_default,
            CredentialKind::SshKeyViaAgent => self.ssh_key_via_agent,
            CredentialKind::PlaintextUserPass => self.plaintext_user_pass,
        }
    }
}

/// What a transport asks for: credentials for a remote, with the user name
/// that the remote's address gives, if any, and the kinds that it accepts.
#[derive(Clone, Debug, PartialEq, Eq)]
pub struct CredentialRequest {
    pub url: String,
    pub username: Option<String>,
    pub allowed: CredentialKinds,
}

/// What a credential request stands for.
pub struct CredentialRequestView {
    pub url: Seq<char>,
    pub username: Option<Seq<char>>,
    pub allowed: Set<CredentialKind>,
}

impl View for CredentialRequest {
    type V = CredentialRequestView;

    open spec fn view(&self) -> CredentialRequestView {
        CredentialRequestView {
            url: self.url@,
            username: option_view(self.username),
            allowed: self.allowed@,
        }
    }
}

/// What the resolver is told of its surroundings: the user name that the
/// credential helper's configuration gives for the remote, the user names of
/// the environment, and a token for plain authentication. Each may be absent.
#[derive(Clone, Debug, PartialEq, Eq)]
pub struct Environment {
    /// The user name from the credential helper's configuration.
    pub helper_username: Option<String>,
    /// The value of the variable `USER`.
    pub user: Option<String>,
    /// The value of the variable `USERNAME`.
    pub username: Option<String>,
    /// The value of the variable `GH_TOKEN`.
    pub token: Option<String>,
}

/// What an environment stands for.
pub struct EnvironmentView {
    pub helper_username: Option<Seq<char>>,
    pub user: Option<Seq<char>>,
    pub username: Option<Seq<char>>,
    pub token: Option<Seq<char>>,
}

impl View for Environment {
    type V = EnvironmentView;

    open spec fn view(&self) -> EnvironmentView {
        EnvironmentView {
            helper_username: option_view(self.helper_username),
            user: option_view(self.user),
            username: option_view(self.username),
            token: option_view(self.token),
        }
    }
}

/// One attempt to obtain a credential.
#[allow(inconsistent_fields)]
#[derive(Clone, Debug, PartialEq, Eq)]
pub enum Attempt {
    /// A credential that carries a user name and no secret.
    Username { username: String },
    /// The platform's default credential.
    PlatformDefault,
    /// A key for the user, taken from a running SSH agent.
    SshAgent { username: String },
    /// A plain user name and password made from a token.
    Token { username: String, password: String },
    /// What the configured credential helper gives for the remote.
    Helper { url: String, username: Option<String> },
}

/// What an attempt stands for.
#[allow(inconsistent_fields)]
pub enum AttemptView {
    Username { username: Seq<char> },
    PlatformDefault,
    SshAgent { username: Seq<char> },
    Token { username: Seq<char>, password: Seq<char> },
    Helper { url: Seq<char>, username: Option<Seq<char>> },
}

impl View for Attempt {
    type V = AttemptView;

    open spec fn view(&self) -> AttemptView {
        match self {
            Attempt::Username { username } => AttemptView::Username { username: username@ },
            Attempt::PlatformDefault => AttemptView::PlatformDefault,
            Attempt::SshAgent { username } => AttemptView::SshAgent { username: username@ },
            Attempt::Token { username, password } => AttemptView::Token {
                username: username@,
                password: password@,
            },
            Attempt::Helper { url, username } => AttemptView::Helper {
                url: url@,
                username: option_view(*username),
            },
        }
    }
}

/// The kind of authentication that an attempt belongs to.
pub open spec fn kind_of(attempt: AttemptView) -> CredentialKind {
    match attempt {
        AttemptView::Username { .. } => CredentialKind::UsernameOnly,
        AttemptView::PlatformDefault => CredentialKind::PlatformDefault,
        AttemptView::SshAgent { .. } => CredentialKind::SshKeyViaAgent,
        AttemptView::Token { .. } => CredentialKind::PlaintextUserPass,
        AttemptView::Helper { .. } => CredentialKind::PlaintextUserPass,
    }
}

/// How a resolution ends.
#[derive(Clone, Copy, Debug, PartialEq, Eq, Structural)]
pub enum Resolution {
    /// An attempt of this kind gave a credential.
    Granted(CredentialKind),
    /// The one attempt that this kind allows failed, and its failure is the
    /// answer: nothing else is tried after it.
    Refused(CredentialKind),
    /// No attempt of an allowed kind gave a credential.
    NoAuthenticationAvailable,
}

/// Where a resolution stands.
#[derive(Clone, Copy, Debug, PartialEq, Eq, Structural)]
pub enum Stage {
    /// Nothing was tried yet.
    Start,
    /// The SSH agent gave no key.
    AgentFailed,
    /// The resolution has ended.
    Done(Resolution),
}

/// What the resolver asks of its caller.
#[derive(Clone, Debug, PartialEq, Eq)]
pub enum Step {
    /// Make this attempt and report how it ended.
    Try(Attempt),
    /// The resolution has ended in this way.
    Finish(Resolution),
}

/// What a step stands for.
pub enum StepView {
    Try(AttemptView),
    Finish(Resolution),
}

impl View for Step {
    type V = StepView;

    open spec fn view(&self) -> StepView {
        match self {
            Step::Try(attempt) => StepView::Try(attempt@),
            Step::Finish(resolution) => StepView::Finish(*resolution),
        }
    }
}

/// The user name used where nothing gives one.
pub open spec fn fallback_username() -> Seq<char> {
    seq!['g', 'i', 't']
}

/// The first of two values that is present.
pub open spec fn or_else(first: Option<Seq<char>>, second: Option<Seq<char>>) -> Option<
    Seq<char>,
> {
    if first is Some {
        first
    } else {
        second
    }
}

/// The name that a bare user name credential carries: the request's, else
/// the helper's, else the fallback.
pub open spec fn identity_username(
    request: CredentialRequestView,
    environment: EnvironmentView,
) -> Seq<char> {
    match or_else(request.username, environment.helper_username) {
        Some(name) => name,
        None => fallback_username(),
    }
}

/// The name for which the SSH agent is asked: the request's, else the
/// helper's, else that of `USER`, else that of `USERNAME`, else the fallback.
pub open spec fn agent_username(
    request: CredentialRequestView,
    environment: EnvironmentView,
) -> Seq<char> {
    match or_else(
        or_else(or_else(request.username, environment.helper_username), environment.user),
        environment.username,
    ) {
        Some(name) => name,
        None => fallback_username(),
    }
}

/// The step for plain authentication: where it is allowed, the token as user
/// name with an empty password if there is a token, else the helper; where it
/// is not allowed, the end.
pub open spec fn plaintext_step(
    request: CredentialRequestView,
    environment: EnvironmentView,
) -> StepView {
    if request.allowed.contains(CredentialKind::PlaintextUserPass) {
        match environment.token {
            Some(token) => StepView::Try(
                AttemptView::Token { username: token, password: Seq::empty() },
            ),
            None => StepView::Try(
                AttemptView::Helper { url: request.url, username: request.username },
            ),
        }
    } else {
        StepView::Finish(Resolution::NoAuthenticationAvailable)
    }
}

/// What is to be done at a stage of the resolution.
pub open spec fn pending(
    request: CredentialRequestView,
    environment: EnvironmentView,
    stage: Stage,
) -> StepView {
    match stage {
        Stage::Start => {
            if request.allowed.contains(CredentialKind::UsernameOnly) {
                StepView::Try(
                    AttemptView::Username { username: identity_username(request, environment) },
                )
            } else if request.allowed.contains(CredentialKind::PlatformDefault) {
                StepView::Try(AttemptView::PlatformDefault)
            } else if request.allowed.contains(CredentialKind::SshKeyViaAgent) {
                StepView::Try(
                    AttemptView::SshAgent { username: agent_username(request, environment) },
                )
            } else {
                plaintext_step(request, environment)
            }
        },
        Stage::AgentFailed => plaintext_step(request, environment),
        Stage::Done(resolution) => StepView::Finish(resolution),
    }
}

/// The stage that follows once the pending attempt has ended. A credential
/// ends the resolution. Without one, a failed agent leads on to plain
/// authentication, a failed helper leaves nothing to try, and any other
/// failure is the answer. Where no attempt is pending the resolution has
/// ended, whatever is reported.
pub open spec fn after(
    request: CredentialRequestView,
    environment: EnvironmentView,
    stage: Stage,
    succeeded: bool,
) -> Stage {
    match pending(request, environment, stage) {
        StepView::Try(attempt) => {
            if succeeded {
                Stage::Done(Resolution::Granted(kind_of(attempt)))
            } else {
                match attempt {
                    AttemptView::SshAgent { .. } => Stage::AgentFailed,
                    AttemptView::Helper { .. } => Stage::Done(
                        Resolution::NoAuthenticationAvailable,
                    ),
                    _ => Stage::Done(Resolution::Refused(kind_of(attempt))),
                }
            }
        },
        StepView::Finish(resolution) => Stage::Done(resolution),
    }
}

/// The attempts that a resolution makes from `stage` on, where `outcomes`
/// says in turn how each attempt ends; an attempt whose outcome is not among
/// them is the last one listed.
pub open spec fn attempts(
    request: CredentialRequestView,
    environment: EnvironmentView,
    stage: Stage,
    outcomes: Seq<bool>,
) -> Seq<AttemptView>
    decreases outcomes.len(),
{
    match pending(request, environment, stage) {
        StepView::Finish(_) => Seq::empty(),
        StepView::Try(attempt) => {
            if outcomes.len() == 0 {
                seq![attempt]
            } else {
                seq![attempt] + attempts(
                    request,
                    environment,
                    after(request, environment, stage, outcomes[0]),
                    outcomes.skip(1),
                )
            }
        },
    }
}

fn first_present(first: &Option<String>, second: &Option<String>) -> (chosen: Option<String>)
    ensures
        option_view(chosen) == or_else(option_view(*first), option_view(*second)),
{
    match first {
        Some(text) => Some(text.clone()),
        None => match second {
            Some(text) => Some(text.clone()),
            None => None,
        },
    }
}

fn or_fallback(name: Option<String>) -> (chosen: String)
    ensures
        chosen@ == match option_view(name) {
            Some(name) => name,
            None => fallback_username(),
        },
{
    match name {
        Some(name) => name,
        None => {
            proof {
                reveal_strlit("git");
                assert("git"@ =~= fallback_username());
            }
            String::from_str("git")
        },
    }
}

/// One resolution of credentials: the request, what is known of the
/// surroundings, and how far the resolution has come.
#[derive(Clone, Debug, PartialEq, Eq)]
pub struct Resolver {
    pub request: CredentialRequest,
    pub environment: Environment,
    pub stage: Stage,
}

impl Resolver {
    /// A resolution of `request` that has tried nothing yet.
    pub fn new(request: CredentialRequest, environment: Environment) -> (resolver: Resolver)
        ensures
            resolver.request == request,
            resolver.environment == environment,
            resolver.stage == Stage::Start,
    {
        Resolver { request, environment, stage: Stage::Start }
    }

    fn identity_username(&self) -> (name: String)
        ensures
            name@ == identity_username(self.request@, self.environment@),
    {
        or_fallback(first_present(&self.request.username, &self.environment.helper_username))
    }

    fn agent_username(&self) -> (name: String)
        ensures
            name@ == agent_username(self.request@, self.environment@),
    {
        let configured = first_present(&self.request.username, &self.environment.helper_username);
        let user = first_present(&configured, &self.environment.user);
        or_fallback(first_present(&user, &self.environment.username))
    }

    fn plaintext_step(&self) -> (step: Step)
        ensures
            step@ == plaintext_step(self.request@, self.environment@),
    {
        if self.request.allowed.contains(CredentialKind::PlaintextUserPass) {
            match &self.environment.token {
                Some(token) => Step::Try(
                    Attempt::Token { username: token.clone(), password: String::new() },
                ),
                None => Step::Try(
                    Attempt::Helper {
                        url: self.request.url.clone(),
                        username: first_present(&self.request.username, &None),
                    },
                ),
            }
        } else {
            Step::Finish(Resolution::NoAuthenticationAvailable)
        }
    }

    /// What is to be done now: an attempt to make, or the end.
    pub fn step(&self) -> (step: Step)
        ensures
            step@ == pending(self.request@, self.environment@, self.stage),
    {
        match self.stage {
            Stage::Start => {
                if self.request.allowed.contains(CredentialKind::UsernameOnly) {
                    Step::Try(Attempt::Username { username: self.identity_username() })
                } else if self.request.allowed.contains(CredentialKind::PlatformDefault) {
                    Step::Try(Attempt::PlatformDefault)
                } else if self.request.allowed.contains(CredentialKind::SshKeyViaAgent) {
                    Step::Try(Attempt::SshAgent { username: self.agent_username() })
                } else {
                    self.plaintext_step()
                }
            },
            Stage::AgentFailed => self.plaintext_step(),
            Stage::Done(resolution) => Step::Finish(resolution),
        }
    }

    /// Takes note of how the pending attempt ended: with a credential or
    /// without one.
    pub fn report(&mut self, succeeded: bool)
        ensures
            final(self).request == old(self).request,
            final(self).environment == old(self).environment,
            final(self).stage == after(
                old(self).request@,
                old(self).environment@,
                old(self).stage,
                succeeded,
            ),
    {
        let next = match self.step() {
            Step::Try(attempt) => {
                if succeeded {
                    let kind = match attempt {
                        Attempt::Username { .. } => CredentialKind::UsernameOnly,
                        Attempt::PlatformDefault => CredentialKind::PlatformDefault,
                        Attempt::SshAgent { .. } => CredentialKind::SshKeyViaAgent,
                        Attempt::Token { .. } => CredentialKind::PlaintextUserPass,
                        Attempt::Helper { .. } => CredentialKind::PlaintextUserPass,
                    };
                    Stage::Done(Resolution::Granted(kind))
                } else {
                    match attempt {
                        Attempt::Username { .. } => Stage::Done(
                            Resolution::Refused(CredentialKind::UsernameOnly),
                        ),
                        Attempt::PlatformDefault => Stage::Done(
                            Resolution::Refused(CredentialKind::PlatformDefault),
                        ),
                        Attempt::SshAgent { .. } => Stage::AgentFailed,
                        Attempt::Token { .. } => Stage::Done(
                            Resolution::Refused(CredentialKind::PlaintextUserPass),
                        ),
                        Attempt::Helper { .. } => Stage::Done(
                            Resolution::NoAuthenticationAvailable,
                        ),
                    }
                }
            },
            Step::Finish(resolution) => Stage::Done(resolution),
        };
        self.stage = next;
    }
}

/// The words with which a resolution that found no credential fails.
pub fn no_authentication_message() -> (message: String)
    ensures
        message@ == "no authentication available"@,
{
    String::from_str("no authentication available")
}

/// Every attempt of a resolution is of a kind that the request allows,
/// however the attempts end.
pub proof fn law_attempts_are_allowed(
    request: CredentialRequestView,
    environment: EnvironmentView,
    outcomes: Seq<bool>,
    i: int,
)
    requires
        0 <= i < attempts(request, environment, Stage::Start, outcomes).len(),
    ensures
        request.allowed.contains(
            kind_of(attempts(request, environment, Stage::Start, outcomes)[i]),
        ),
{
    lemma_attempts_unfolded(request, environment, outcomes);
}

/// The attempts of a resolution come in the order of priority, and no kind
/// is tried twice.
pub proof fn law_attempts_follow_priority(
    request: CredentialRequestView,
    environment: EnvironmentView,
    outcomes: Seq<bool>,
    i: int,
    j: int,
)
    requires
        0 <= i < j < attempts(request, environment, Stage::Start, outcomes).len(),
    ensures
        priority(kind_of(attempts(request, environment, Stage::Start, outcomes)[i])) < priority(
            kind_of(attempts(request, environment, Stage::Start, outcomes)[j]),
        ),
{
    lemma_attempts_unfolded(request, environment, outcomes);
}

/// Where nothing is allowed, the resolution fails at once, without an
/// attempt.
pub proof fn law_nothing_allowed_is_exhausted(
    request: CredentialRequestView,
    environment: EnvironmentView,
)
    requires
        request.allowed == Set::<CredentialKind>::empty(),
    ensures
        pending(request, environment, Stage::Start) == StepView::Finish(
            Resolution::NoAuthenticationAvailable,
        ),
{
}

/// Where only a key from the SSH agent is allowed and the agent gives none,
/// the resolution fails for want of authentication: no other kind is tried
/// in its place, whatever the surroundings offer.
pub proof fn law_agent_alone_is_exhausted(
    request: CredentialRequestView,
    environment: EnvironmentView,
)
    requires
        request.allowed == set![CredentialKind::SshKeyViaAgent],
    ensures
        pending(request, environment, Stage::Start) is Try,
        pending(request, environment, Stage::Start)->Try_0 is SshAgent,
        pending(
            request,
            environment,
            after(request, environment, Stage::Start, false),
        ) == StepView::Finish(Resolution::NoAuthenticationAvailable),
{
}

/// A credential ends the resolution at once: the attempt that gave it is
/// the last, and the resolution is granted with the kind of that attempt.
pub proof fn law_first_success_ends(
    request: CredentialRequestView,
    environment: EnvironmentView,
    stage: Stage,
)
    requires
        pending(request, environment, stage) is Try,
    ensures
        after(request, environment, stage, true) == Stage::Done(
            Resolution::Granted(kind_of(pending(request, environment, stage)->Try_0)),
        ),
{
}

/// A resolution makes one attempt, or two where the first asks the SSH
/// agent in vain; and it makes none where nothing is allowed.
proof fn lemma_attempts_unfolded(
    request: CredentialRequestView,
    environment: EnvironmentView,
    outcomes: Seq<bool>,
)
    ensures
        ({
            let made = attempts(request, environment, Stage::Start, outcomes);
            &&& made.len() <= 2
            &&& forall|k: int| 0 <= k < made.len() ==> request.allowed.contains(kind_of(made[k]))
            &&& made.len() == 2 ==> made[0] is SshAgent && kind_of(made[1])
                == CredentialKind::PlaintextUserPass
        }),
{
    reveal_with_fuel(attempts, 3);
    let made = attempts(request, environment, Stage::Start, outcomes);
    match pending(request, environment, Stage::Start) {
        StepView::Finish(_) => {},
        StepView::Try(first) => {
            if outcomes.len() > 0 {
                let next = after(request, environment, Stage::Start, outcomes[0]);
                let rest = outcomes.skip(1);
                match pending(request, environment, next) {
                    StepView::Finish(_) => {},
                    StepView::Try(second) => {
                        assert(next == Stage::AgentFailed);
                        if rest.len() > 0 {
                            let last = after(request, environment, next, rest[0]);
                            assert(last is Done);
                            assert(attempts(request, environment, last, rest.skip(1)).len() == 0);
                        }
                    },
                }
            }
        },
    }
}

} // verus!
