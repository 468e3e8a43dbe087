//! Setting up the key that the driver signs with, step by step.

use crate::paths;
use crate::paths::join_path;
use crate::text;
use crate::text::{ends_with, own, strip_suffix};
use vstd::prelude::*;

verus! {

/// What the setup waits for.
#[derive(Debug, Clone, Copy, PartialEq, Eq, Structural)]
pub enum Stage {
    /// Whether the driver's key is set up already.
    Driver,
    /// Whether the key that was asked for is there.
    Given,
    /// The key that git signs with.
    GitKey,
    /// One of the usual keys.
    DefaultKey,
    /// Whether there is a public key beside the key.
    Variant,
    /// The public key.
    Reading,
    /// The copy of the public key.
    Writing,
    /// The fingerprint of the key.
    Fingerprint,
    /// Whether the private key is there.
    Private,
    /// The configuration of git.
    Configuring,
    /// Nothing more.
    Done,
}

/// A setup under way, with the path of the key once it is known.
pub struct Signing {
    pub stage: Stage,
    pub key: String,
}

/// The model of a setup.
#[verifier::ext_equal]
pub struct SigningView {
    pub stage: Stage,
    pub key: Seq<char>,
}

impl View for Signing {
    type V = SigningView;

    open spec fn view(&self) -> SigningView {
        SigningView { stage: self.stage, key: self.key@ }
    }
}

/// What came of the last action.
pub enum Event {
    /// Whether the file is there.
    Exists(bool),
    /// What was asked for, where there is such a thing.
    Text(Option<String>),
    /// The action succeeded, or why it did not.
    Done(Result<(), String>),
}

/// What is to be done next, after the text is printed.
pub enum Action {
    /// Say whether the file is there.
    CheckFile(String),
    /// Ask for the key that git signs with.
    AskGitKey,
    /// Ask for one of the usual keys.
    AskDefaultKey,
    /// Read the public key.
    ReadKey(String),
    /// Write the content to the file.
    WriteFile(String, String),
    /// Ask for the fingerprint of the key.
    AskFingerprint(String),
    /// Let git sign with the private key.
    ConfigureGit(String),
    /// All is done.
    Finish,
    /// Fail with the message.
    Fail(String),
}

/// The model of an action.
#[verifier::ext_equal]
pub enum ActionView {
    CheckFile(Seq<char>),
    AskGitKey,
    AskDefaultKey,
    ReadKey(Seq<char>),
    WriteFile(Seq<char>, Seq<char>),
    AskFingerprint(Seq<char>),
    ConfigureGit(Seq<char>),
    Finish,
    Fail(Seq<char>),
}

impl View for Action {
    type V = ActionView;

    open spec fn view(&self) -> ActionView {
        match self {
            Action::CheckFile(path) => ActionView::CheckFile(path@),
            Action::AskGitKey => ActionView::AskGitKey,
            Action::AskDefaultKey => ActionView::AskDefaultKey,
            Action::ReadKey(path) => ActionView::ReadKey(path@),
            Action::WriteFile(path, content) => ActionView::WriteFile(path@, content@),
            Action::AskFingerprint(path) => ActionView::AskFingerprint(path@),
            Action::ConfigureGit(path) => ActionView::ConfigureGit(path@),
            Action::Finish => ActionView::Finish,
            Action::Fail(message) => ActionView::Fail(message@),
        }
    }
}

/// What a step gives: the setup, what is printed, and what is to be done next.
#[verifier::ext_equal]
pub struct StepView {
    pub state: SigningView,
    pub say: Seq<char>,
    pub action: ActionView,
}

/// Where the driver's public key is kept.
pub open spec fn driver_key(root: Seq<char>) -> Seq<char> {
    paths::joined(paths::joined(root, ".crosslink"@), "driver-key.pub"@)
}

/// The private key of a public one.
pub open spec fn private_key(key: Seq<char>) -> Seq<char> {
    match text::before_suffix(key, ".pub"@) {
        Some(base) => base,
        None => key,
    }
}

/// A step that prints nothing.
pub open spec fn silent(stage: Stage, key: Seq<char>, action: ActionView) -> StepView {
    StepView { state: SigningView { stage, key }, say: ""@, action }
}

/// A step that ends the setup.
pub open spec fn ended(key: Seq<char>, say: Seq<char>) -> StepView {
    StepView { state: SigningView { stage: Stage::Done, key }, say, action: ActionView::Finish }
}

/// A public key is read as it is; of any other the public key beside it is looked for.
pub open spec fn on_key(key: Seq<char>) -> StepView {
    if text::has_suffix(key, ".pub"@) {
        silent(Stage::Reading, key, ActionView::ReadKey(key))
    } else {
        silent(Stage::Variant, key, ActionView::CheckFile(key + ".pub"@))
    }
}

/// What is said of the key that was set up.
pub open spec fn key_line(key: Seq<char>, fingerprint: Option<Seq<char>>) -> Seq<char> {
    match fingerprint {
        Some(f) => "Driver signing key: "@ + f + " ("@ + key + ")\n"@,
        None => "Driver signing key: "@ + key + "\n"@,
    }
}

/// Whether an event is one that the setup waits for.
pub open spec fn expects(s: SigningView, given: Option<Seq<char>>, event: Event) -> bool {
    match event {
        Event::Exists(_) => s.stage == Stage::Driver || (s.stage == Stage::Given && given is Some)
            || s.stage == Stage::Variant || s.stage == Stage::Private,
        Event::Text(_) => s.stage == Stage::GitKey || s.stage == Stage::DefaultKey || s.stage
            == Stage::Reading || s.stage == Stage::Fingerprint,
        Event::Done(_) => s.stage == Stage::Writing || s.stage == Stage::Configuring,
    }
}

/// What follows from whether a file is there.
pub open spec fn on_exists(s: SigningView, given: Option<Seq<char>>, there: bool) -> StepView {
    match s.stage {
        Stage::Driver => if there {
            ended(s.key, ""@)
        } else {
            match given {
                Some(key) => silent(Stage::Given, s.key, ActionView::CheckFile(key)),
                None => silent(Stage::GitKey, s.key, ActionView::AskGitKey),
            }
        },
        Stage::Given => if there {
            on_key(given->0)
        } else {
            ended(s.key, "Warning: Signing key not found at "@ + given->0 + "\n"@)
        },
        Stage::Variant => {
            let key = if there {
                s.key + ".pub"@
            } else {
                s.key
            };
            silent(Stage::Reading, key, ActionView::ReadKey(key))
        },
        _ => if there {
            silent(Stage::Configuring, s.key, ActionView::ConfigureGit(private_key(s.key)))
        } else {
            ended(s.key, ""@)
        },
    }
}

/// What follows from an answer.
pub open spec fn on_text(s: SigningView, root: Seq<char>, answer: Option<Seq<char>>) -> StepView {
    match s.stage {
        Stage::GitKey => match answer {
            Some(key) => on_key(key),
            None => silent(Stage::DefaultKey, s.key, ActionView::AskDefaultKey),
        },
        Stage::DefaultKey => match answer {
            Some(key) => on_key(key),
            None => ended(
                s.key,
                "No SSH key found. Signing setup skipped.\n  Generate one with: ssh-keygen -t ed25519\n  Then re-run: crosslink init --force\n"@,
            ),
        },
        Stage::Reading => match answer {
            Some(content) => silent(
                Stage::Writing,
                s.key,
                ActionView::WriteFile(driver_key(root), content),
            ),
            None => ended(
                s.key,
                "Warning: "@ + s.key
                    + " does not appear to be an SSH public key\n  Signing setup skipped.\n"@,
            ),
        },
        _ => StepView {
            state: SigningView { stage: Stage::Private, ..s },
            say: key_line(s.key, answer),
            action: ActionView::CheckFile(private_key(s.key)),
        },
    }
}

/// What follows from an action that succeeded or failed.
pub open spec fn on_done(s: SigningView, result: Result<(), String>) -> StepView {
    if s.stage == Stage::Writing {
        match result {
            Ok(_) => silent(Stage::Fingerprint, s.key, ActionView::AskFingerprint(s.key)),
            Err(_) => silent(
                Stage::Done,
                s.key,
                ActionView::Fail("Failed to write driver-key.pub"@),
            ),
        }
    } else {
        match result {
            Ok(_) => ended(s.key, ""@),
            Err(e) => ended(s.key, "Warning: Could not configure git signing: "@ + e@ + "\n"@),
        }
    }
}

/// A step of the setup.
pub open spec fn step(
    s: SigningView,
    root: Seq<char>,
    given: Option<Seq<char>>,
    event: Event,
) -> StepView {
    match event {
        Event::Exists(there) => on_exists(s, given, there),
        Event::Text(answer) => on_text(s, root, text::opt_str(answer)),
        Event::Done(result) => on_done(s, result),
    }
}

/// Begins the setup, and asks whether the driver's key is set up already.
pub fn setup_driver_signing(root: &str) -> (r: (Signing, Action))
    ensures
        r.0@ == (SigningView { stage: Stage::Driver, key: ""@ }),
        r.1@ == ActionView::CheckFile(driver_key(root@)),
{
    let dir = join_path(root, ".crosslink");
    let path = join_path(dir.as_str(), "driver-key.pub");
    (Signing { stage: Stage::Driver, key: own("") }, Action::CheckFile(path))
}

/// The private key of a public one.
pub fn private_key_of(key: &str) -> (r: String)
    ensures
        r@ == private_key(key@),
{
    match strip_suffix(key, ".pub") {
        Some(base) => base,
        None => own(key),
    }
}

impl Signing {
    fn end(&mut self, say: String) -> (r: (String, Action))
        ensures
            (StepView { state: final(self)@, say: r.0@, action: r.1@ }) == ended(
                old(self)@.key,
                say@,
            ),
    {
        self.stage = Stage::Done;
        (say, Action::Finish)
    }

    fn read(&mut self, key: String) -> (r: (String, Action))
        ensures
            (StepView { state: final(self)@, say: r.0@, action: r.1@ }) == silent(
                Stage::Reading,
                key@,
                ActionView::ReadKey(key@),
            ),
    {
        let copy = own(key.as_str());
        self.stage = Stage::Reading;
        self.key = key;
        (own(""), Action::ReadKey(copy))
    }

    fn found(&mut self, key: String) -> (r: (String, Action))
        ensures
            (StepView { state: final(self)@, say: r.0@, action: r.1@ }) == on_key(key@),
    {
        if ends_with(key.as_str(), ".pub") {
            return self.read(key);
        }
        let mut variant = own(key.as_str());
        variant.append(".pub");
        self.stage = Stage::Variant;
        self.key = key;
        (own(""), Action::CheckFile(variant))
    }

    fn checked(&mut self, given: Option<&str>, there: bool) -> (r: (String, Action))
        requires
            expects(old(self)@, text::opt_view(given), Event::Exists(there)),
        ensures
            (StepView { state: final(self)@, say: r.0@, action: r.1@ }) == on_exists(
                old(self)@,
                text::opt_view(given),
                there,
            ),
    {
        match self.stage {
            Stage::Driver => if there {
                self.end(own(""))
            } else {
                match given {
                    Some(key) => {
                        self.stage = Stage::Given;
                        (own(""), Action::CheckFile(own(key)))
                    },
                    None => {
                        self.stage = Stage::GitKey;
                        (own(""), Action::AskGitKey)
                    },
                }
            },
            Stage::Given => {
                let key = match given {
                    Some(key) => key,
                    None => "",
                };
                if there {
                    self.found(own(key))
                } else {
                    let mut say = own("Warning: Signing key not found at ");
                    say.append(key);
                    say.append("\n");
                    self.end(say)
                }
            },
            Stage::Variant => {
                let mut key = own(self.key.as_str());
                if there {
                    key.append(".pub");
                }
                self.read(key)
            },
            _ => if there {
                self.stage = Stage::Configuring;
                (own(""), Action::ConfigureGit(private_key_of(self.key.as_str())))
            } else {
                self.end(own(""))
            },
        }
    }

    fn answer(&mut self, root: &str, answer: Option<String>) -> (r: (String, Action))
        requires
            expects(old(self)@, None, Event::Text(answer)),
        ensures
            (StepView { state: final(self)@, say: r.0@, action: r.1@ }) == on_text(
                old(self)@,
                root@,
                text::opt_str(answer),
            ),
    {
        match self.stage {
            Stage::GitKey => match answer {
                Some(key) => self.found(key),
                None => {
                    self.stage = Stage::DefaultKey;
                    (own(""), Action::AskDefaultKey)
                },
            },
            Stage::DefaultKey => match answer {
                Some(key) => self.found(key),
                None => self.end(
                    own(
                        "No SSH key found. Signing setup skipped.\n  Generate one with: ssh-keygen -t ed25519\n  Then re-run: crosslink init --force\n",
                    ),
                ),
            },
            Stage::Reading => match answer {
                Some(content) => {
                    let dir = join_path(root, ".crosslink");
                    let path = join_path(dir.as_str(), "driver-key.pub");
                    self.stage = Stage::Writing;
                    (own(""), Action::WriteFile(path, content))
                },
                None => {
                    let mut say = own("Warning: ");
                    say.append(self.key.as_str());
                    say.append(
                        " does not appear to be an SSH public key\n  Signing setup skipped.\n",
                    );
                    self.end(say)
                },
            },
            _ => {
                let mut say = own("Driver signing key: ");
                match &answer {
                    Some(fingerprint) => {
                        say.append(fingerprint.as_str());
                        say.append(" (");
                        say.append(self.key.as_str());
                        say.append(")\n");
                    },
                    None => {
                        say.append(self.key.as_str());
                        say.append("\n");
                    },
                }
                self.stage = Stage::Private;
                (say, Action::CheckFile(private_key_of(self.key.as_str())))
            },
        }
    }

    fn done(&mut self, result: Result<(), String>) -> (r: (String, Action))
        requires
            expects(old(self)@, None, Event::Done(result)),
        ensures
            (StepView { state: final(self)@, say: r.0@, action: r.1@ }) == on_done(
                old(self)@,
                result,
            ),
    {
        if self.stage == Stage::Writing {
            match result {
                Ok(_) => {
                    self.stage = Stage::Fingerprint;
                    (own(""), Action::AskFingerprint(own(self.key.as_str())))
                },
                Err(_) => {
                    self.stage = Stage::Done;
                    (own(""), Action::Fail(own("Failed to write driver-key.pub")))
                },
            }
        } else {
            match result {
                Ok(_) => self.end(own("")),
                Err(e) => {
                    let mut say = own("Warning: Could not configure git signing: ");
                    say.append(e.as_str());
                    say.append("\n");
                    self.end(say)
                },
            }
        }
    }

    /// Takes in what came of the last action; says what is printed and what is to be
    /// done next.
    pub fn advance(&mut self, root: &str, signing_key: Option<&str>, event: Event) -> (r: (
        String,
        Action,
    ))
        requires
            expects(old(self)@, text::opt_view(signing_key), event),
        ensures
            (StepView { state: final(self)@, say: r.0@, action: r.1@ }) == step(
                old(self)@,
                root@,
                text::opt_view(signing_key),
                event,
            ),
    {
        match event {
            Event::Exists(there) => self.checked(signing_key, there),
            Event::Text(answer) => self.answer(root, answer),
            Event::Done(result) => self.done(result),
        }
    }
}

// ---------------------------------------------------------------------------
// Laws
// ---------------------------------------------------------------------------

/// How far a setup has come.
pub open spec fn rank(stage: Stage) -> nat {
    match stage {
        Stage::Driver => 0,
        Stage::Given => 1,
        Stage::GitKey => 1,
        Stage::DefaultKey => 2,
        Stage::Variant => 3,
        Stage::Reading => 4,
        Stage::Writing => 5,
        Stage::Fingerprint => 6,
        Stage::Private => 7,
        Stage::Configuring => 8,
        Stage::Done => 9,
    }
}

/// Every step brings the setup nearer to its end.
pub proof fn law_signing_makes_progress(
    s: SigningView,
    root: Seq<char>,
    given: Option<Seq<char>>,
    event: Event,
)
    requires
        expects(s, given, event),
    ensures
        rank(step(s, root, given, event).state.stage) > rank(s.stage),
{
}

/// A key that is set up already is kept: the setup ends at once, and says nothing.
pub proof fn law_driver_key_is_kept(
    s: SigningView,
    root: Seq<char>,
    given: Option<Seq<char>>,
)
    requires
        s.stage == Stage::Driver,
    ensures
        step(s, root, given, Event::Exists(true)).action == ActionView::Finish,
        step(s, root, given, Event::Exists(true)).say == ""@,
{
}

/// The private key of the public key beside a key is that key.
pub proof fn law_public_key_leads_back(key: Seq<char>)
    ensures
        private_key(key + ".pub"@) == key,
{
    let whole = key + ".pub"@;
    assert(whole.skip(key.len() as int) =~= ".pub"@);
    assert(whole.take(key.len() as int) =~= key);
}

/// The key that was asked for is taken, where it is there, and no other; where it is not, that is
/// told and nothing is set up. Without one, git's key comes before the usual ones.
pub proof fn law_asked_key_is_taken(
    s: SigningView,
    root: Seq<char>,
    key: Seq<char>,
    answer: String,
)
    ensures
        s.stage == Stage::Driver ==> step(s, root, Some(key), Event::Exists(false)).action
            == ActionView::CheckFile(key),
        s.stage == Stage::Driver ==> step(s, root, None, Event::Exists(false)).action
            == ActionView::AskGitKey,
        s.stage == Stage::Given ==> step(s, root, Some(key), Event::Exists(true)) == on_key(key),
        s.stage == Stage::Given ==> (step(s, root, Some(key), Event::Exists(false)).action
            == ActionView::Finish && text::contains(
            step(s, root, Some(key), Event::Exists(false)).say,
            key,
        )),
        s.stage == Stage::GitKey ==> step(s, root, None, Event::Text(None)).action
            == ActionView::AskDefaultKey,
        s.stage == Stage::GitKey || s.stage == Stage::DefaultKey ==> step(
            s,
            root,
            None,
            Event::Text(Some(answer)),
        ) == on_key(answer@),
        s.stage == Stage::DefaultKey ==> step(s, root, None, Event::Text(None)).action
            == ActionView::Finish && step(s, root, None, Event::Text(None)).say.len() > 0,
{
    broadcast use {
        text::lemma_contains_self,
        text::lemma_contains_first,
        text::lemma_contains_second,
    };

    reveal_strlit(
        "No SSH key found. Signing setup skipped.\n  Generate one with: ssh-keygen -t ed25519\n  Then re-run: crosslink init --force\n",
    );
}

/// Only a public key is read: the key itself where it is one, else the one beside it where there is
/// one.
pub proof fn law_public_keys_are_read(s: SigningView, root: Seq<char>, key: Seq<char>)
    ensures
        on_key(key + ".pub"@).action == ActionView::ReadKey(key + ".pub"@),
        !text::has_suffix(key, ".pub"@) ==> on_key(key).action == ActionView::CheckFile(
            key + ".pub"@,
        ) && on_key(key).state.key == key,
        s.stage == Stage::Variant ==> step(s, root, None, Event::Exists(true)).action
            == ActionView::ReadKey(s.key + ".pub"@),
        s.stage == Stage::Variant ==> step(s, root, None, Event::Exists(false)).action
            == ActionView::ReadKey(s.key),
{
    text::lemma_suffix_of_sum(key, ".pub"@);
}

/// What was read is copied as it is to the driver's key; what is no public key is told and not
/// copied. Only a copy that cannot be written is a failure.
pub proof fn law_keys_are_copied_as_they_are(
    s: SigningView,
    root: Seq<char>,
    content: String,
    e: String,
)
    ensures
        s.stage == Stage::Reading ==> step(s, root, None, Event::Text(Some(content))).action
            == ActionView::WriteFile(driver_key(root), content@),
        s.stage == Stage::Reading ==> step(s, root, None, Event::Text(None)).action
            == ActionView::Finish && text::contains(
            step(s, root, None, Event::Text(None)).say,
            "Warning: "@ + s.key,
        ),
        s.stage == Stage::Writing ==> step(s, root, None, Event::Done(Ok(()))).action
            == ActionView::AskFingerprint(s.key),
        s.stage == Stage::Writing ==> step(s, root, None, Event::Done(Err(e))).action is Fail,
        text::has_suffix(driver_key(root), "driver-key.pub"@),
{
    broadcast use {
        text::lemma_contains_self,
        text::lemma_contains_first,
        text::lemma_suffix_of_sum,
    };

    reveal_strlit("driver-key.pub");
    reveal_strlit(".crosslink");
    let dir = paths::joined(root, ".crosslink"@);
    if root.len() > 0 {
        paths::law_paths_lead_on(root, ".crosslink"@);
        assert(dir.len() > 0) by {
            assert(text::has_suffix(dir, ".crosslink"@));
        }
    }
    paths::law_paths_lead_on(dir, "driver-key.pub"@);
}

/// The key is told by its fingerprint and path. Git signs with the private key, where that is
/// there; that it could not be configured is told.
pub proof fn law_git_signs_with_the_private_key(
    s: SigningView,
    root: Seq<char>,
    fingerprint: String,
    e: String,
)
    ensures
        s.stage == Stage::Fingerprint ==> {
            let next = step(s, root, None, Event::Text(Some(fingerprint)));
            &&& next.action == ActionView::CheckFile(private_key(s.key))
            &&& text::contains(next.say, "Driver signing key: "@ + fingerprint@)
            &&& text::contains(next.say, " ("@ + s.key + ")\n"@)
        },
        s.stage == Stage::Fingerprint ==> text::contains(
            step(s, root, None, Event::Text(None)).say,
            "Driver signing key: "@ + s.key,
        ),
        s.stage == Stage::Private ==> step(s, root, None, Event::Exists(true)).action
            == ActionView::ConfigureGit(private_key(s.key)),
        s.stage == Stage::Private ==> step(s, root, None, Event::Exists(false)).action
            == ActionView::Finish,
        s.stage == Stage::Configuring ==> step(s, root, None, Event::Done(Ok(()))).action
            == ActionView::Finish && step(s, root, None, Event::Done(Ok(()))).say == ""@,
        s.stage == Stage::Configuring ==> step(s, root, None, Event::Done(Err(e))).action
            == ActionView::Finish && text::contains(
            step(s, root, None, Event::Done(Err(e))).say,
            "Warning: Could not configure git signing: "@ + e@,
        ),
{
    broadcast use {
        text::lemma_contains_self,
        text::lemma_contains_first,
        text::lemma_contains_triple,
    };

}

/// A setup begins with whether the driver's key is there.
pub proof fn law_signing_begins_with_the_driver(root: &str, r: (Signing, Action))
    requires
        call_ensures(setup_driver_signing, (root,), r),
    ensures
        r.0.stage == Stage::Driver,
        r.1@ == ActionView::CheckFile(driver_key(root@)),
{
    assert(r.0@.stage == Stage::Driver);
}

} // verus!
