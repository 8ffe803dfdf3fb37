//! Changing the password that the encryption key is wrapped with.

use vstd::prelude::*;
use vstd::string::{StrSliceExecFns, StringExecFns};
use vstd::utf8::is_ascii_chars;

verus! {

/// Why a password was not accepted or not changed.
#[derive(Debug)]
pub enum PasswordError {
    EmptyPassword,
    TooShort,
    DefaultPassword,
    CurrentPasswordIsDefault,
    EncryptionError(String),
    Other(String),
}

/// Model of a `PasswordError`.
pub enum PasswordFault {
    EmptyPassword,
    TooShort,
    DefaultPassword,
    CurrentPasswordIsDefault,
    EncryptionError(Seq<char>),
    Other(Seq<char>),
}

impl View for PasswordError {
    type V = PasswordFault;

    open spec fn view(&self) -> PasswordFault {
        match self {
            PasswordError::EmptyPassword => PasswordFault::EmptyPassword,
            PasswordError::TooShort => PasswordFault::TooShort,
            PasswordError::DefaultPassword => PasswordFault::DefaultPassword,
            PasswordError::CurrentPasswordIsDefault => PasswordFault::CurrentPasswordIsDefault,
            PasswordError::EncryptionError(cause) => PasswordFault::EncryptionError(cause@),
            PasswordError::Other(cause) => PasswordFault::Other(cause@),
        }
    }
}

impl PasswordFault {
    /// The text that users see.
    pub open spec fn text(self) -> Seq<char> {
        match self {
            PasswordFault::EmptyPassword => "Password cannot be empty"@,
            PasswordFault::TooShort => "Password must be at least 8 characters long"@,
            PasswordFault::DefaultPassword => "Please choose a secure password, not 'CHANGEME'"@,
            PasswordFault::CurrentPasswordIsDefault =>
                "Current password is still the default. Please update your config file first"@,
            PasswordFault::EncryptionError(cause) => "Failed to change encryption password: "@
                + cause,
            PasswordFault::Other(cause) => cause,
        }
    }
}

impl PasswordError {
    /// The text that users see.
    pub fn message(&self) -> (text: String)
        ensures
            text@ == self@.text(),
    {
        match self {
            PasswordError::EmptyPassword => "Password cannot be empty".to_owned(),
            PasswordError::TooShort => "Password must be at least 8 characters long".to_owned(),
            PasswordError::DefaultPassword =>
                "Please choose a secure password, not 'CHANGEME'".to_owned(),
            PasswordError::CurrentPasswordIsDefault =>
                "Current password is still the default. Please update your config file first".to_owned(),
            PasswordError::EncryptionError(cause) =>
                "Failed to change encryption password: ".to_owned().concat(cause.as_str()),
            PasswordError::Other(cause) => cause.clone(),
        }
    }
}

/// Fewest characters that a password may have.
pub const MIN_PASSWORD_LEN: usize = 8;

/// Whether `password` is the one that a configuration file is shipped with.
pub open spec fn is_default(password: Seq<char>) -> bool {
    password == "CHANGEME"@
}

/// What is wrong with `password`, if anything is: it is empty, it has fewer characters than
/// `MIN_PASSWORD_LEN`, or it is the default.
pub open spec fn password_fault(password: Seq<char>) -> Option<PasswordFault> {
    if password.len() == 0 {
        Some(PasswordFault::EmptyPassword)
    } else if password.len() < MIN_PASSWORD_LEN {
        Some(PasswordFault::TooShort)
    } else if is_default(password) {
        Some(PasswordFault::DefaultPassword)
    } else {
        None
    }
}

/// Tells whether `password` is the default.
fn matches_default(password: &str) -> (r: bool)
    ensures
        r == is_default(password@),
{
    password.to_owned() == "CHANGEME".to_owned()
}

/// Accepts a password, or says what is wrong with it.
pub fn validate_password(password: &str) -> (result: Result<(), PasswordError>)
    ensures
        match result {
            Ok(_) => password_fault(password@) is None,
            Err(e) => password_fault(password@) == Some(e@),
        },
{
    if password.is_empty() {
        return Err(PasswordError::EmptyPassword);
    }
    if password.unicode_len() < MIN_PASSWORD_LEN {
        return Err(PasswordError::TooShort);
    }
    if matches_default(password) {
        return Err(PasswordError::DefaultPassword);
    }
    Ok(())
}

/// The settings that a password change depends on.
pub struct Settings {
    pub storage: StorageSettings,
    /// Options of the AWS client, by name.
    pub aws: Option<Vec<(String, String)>>,
    /// Options of the Azure client, by name.
    pub azure: Option<Vec<(String, String)>>,
}

/// Where the data is, and what protects it.
pub struct StorageSettings {
    pub url: String,
    pub encryption_password: String,
}

/// A step of a password change.
#[derive(Debug, Clone, Copy, PartialEq, Eq, Structural)]
pub enum ChangeStep {
    /// Reach the object store.
    OpenStore,
    /// Open the database in it.
    OpenDatabase,
    /// Wrap the encryption key with `new_password` in place of `current_password`.
    ChangeKey,
    /// Flush the database.
    Flush,
    /// Close the database.
    Close,
    /// Nothing: the password is changed.
    Done,
}

/// A password change that may go ahead.
pub struct PasswordChange {
    /// The URL of the object store, as the parser writes it.
    pub url: String,
    /// The options to reach the object store with, in order.
    pub env_vars: Vec<(String, String)>,
    /// The password that the encryption key is wrapped with.
    pub current_password: String,
    /// The password to wrap the encryption key with instead.
    pub new_password: String,
    /// What to do next.
    pub step: ChangeStep,
}

/// Lowercase form of `text` by the rules of Unicode: what `str::to_lowercase` returns.
pub uninterp spec fn lowercased(text: Seq<char>) -> Seq<char>;

/// Lowercase form of an ASCII character.
pub open spec fn ascii_lower(c: char) -> char {
    if 'A' as u32 <= c as u32 && c as u32 <= 'Z' as u32 {
        (c as u32 + 32) as char
    } else {
        c
    }
}

/// `str::to_lowercase` returns a string that depends on `text` alone. It lowercases the ASCII
/// letters among other characters, so on a text of ASCII characters it replaces `A` to `Z` by
/// `a` to `z` and keeps the rest. What it makes of other characters is left unsaid.
pub assume_specification[ str::to_lowercase ](text: &str) -> (lower: String)
    ensures
        lower@ == lowercased(text@),
        is_ascii_chars(text@) ==> lower@ == text@.map_values(|c: char| ascii_lower(c)),
;

/// What the URL parser makes of `input`: the URL it reads, written out again, or the text of
/// its error.
pub uninterp spec fn url_read(input: Seq<char>) -> Result<Seq<char>, Seq<char>>;

/// `url::Url::from_str`, by way of `str::parse`, reads an absolute URL. Whether it succeeds, the
/// URL written out again and the text of the error depend on `input` alone. Which inputs are
/// URLs, and how they are written out, is left unsaid.
#[verifier::external_body]
fn read_url(input: &str) -> (read: Result<String, String>)
    ensures
        match read {
            Ok(url) => url_read(input@) == Ok::<Seq<char>, Seq<char>>(url@),
            Err(text) => url_read(input@) == Err::<Seq<char>, Seq<char>>(text@),
        },
{
    match input.parse::<url::Url>() {
        Ok(url) => Ok(url.to_string()),
        Err(e) => Err(e.to_string()),
    }
}

/// The name and value under which a client option is handed to the object store.
pub open spec fn variable(prefix: Seq<char>, option: (String, String)) -> (Seq<char>, Seq<char>) {
    (prefix + lowercased(option.0@), option.1@)
}

/// The variables of all options of one client, in order.
pub open spec fn variables(prefix: Seq<char>, options: Option<Vec<(String, String)>>) -> Seq<
    (Seq<char>, Seq<char>),
> {
    match options {
        Some(options) => options@.map_values(|option: (String, String)| variable(prefix, option)),
        None => Seq::empty(),
    }
}

/// The variables that the settings give: first those of AWS, then those of Azure.
pub open spec fn environment(settings: Settings) -> Seq<(Seq<char>, Seq<char>)> {
    variables("aws_"@, settings.aws) + variables("azure_"@, settings.azure)
}

/// The characters of each name and value.
pub open spec fn texts(vars: Seq<(String, String)>) -> Seq<(Seq<char>, Seq<char>)> {
    vars.map_values(|var: (String, String)| (var.0@, var.1@))
}

/// Makes the variable for an option whose name, in lowercase, is `lower`.
pub fn prefixed_variable(prefix: &str, lower: &str, value: &str) -> (var: (String, String))
    ensures
        var.0@ == prefix@ + lower@,
        var.1@ == value@,
{
    (prefix.to_owned().concat(lower), value.to_owned())
}

/// Appends the variables of all options of one client.
fn push_variables(
    vars: &mut Vec<(String, String)>,
    prefix: &str,
    options: &Option<Vec<(String, String)>>,
)
    ensures
        texts(final(vars)@) == texts(old(vars)@) + variables(prefix@, *options),
{
    let ghost before = texts(vars@);
    if let Some(options) = options {
        let ghost all = options@.map_values(|option: (String, String)| variable(prefix@, option));
        let mut i: usize = 0;
        assert(before + all.take(0) =~= before);
        while i < options.len()
            invariant
                i <= options.len(),
                all == options@.map_values(|option: (String, String)| variable(prefix@, option)),
                texts(vars@) == before + all.take(i as int),
            decreases options.len() - i,
        {
            let lower = options[i].0.as_str().to_lowercase();
            let var = prefixed_variable(prefix, lower.as_str(), options[i].1.as_str());
            let ghost earlier = vars@;
            vars.push(var);
            assert(texts(vars@) =~= texts(earlier).push(all[i as int]));
            assert(before + all.take(i as int + 1) =~= (before + all.take(i as int)).push(
                all[i as int],
            ));
            i = i + 1;
        }
        assert(all.take(options@.len() as int) =~= all);
    } else {
        assert(before + variables(prefix@, None) =~= before);
    }
}

/// The variables that the settings give.
pub fn environment_variables(settings: &Settings) -> (vars: Vec<(String, String)>)
    ensures
        texts(vars@) == environment(*settings),
{
    let mut vars: Vec<(String, String)> = Vec::new();
    assert(texts(vars@) =~= Seq::empty());
    push_variables(&mut vars, "aws_", &settings.aws);
    push_variables(&mut vars, "azure_", &settings.azure);
    assert(texts(vars@) =~= environment(*settings));
    vars
}

/// Why the two passwords do not allow a change, if they do not. The current password is looked
/// at first, then the new one.
pub open spec fn passwords_fault(settings: Settings, new_password: Seq<char>) -> Option<
    PasswordFault,
> {
    if is_default(settings.storage.encryption_password@) {
        Some(PasswordFault::CurrentPasswordIsDefault)
    } else {
        password_fault(new_password)
    }
}

/// Why the password may not be changed to `new_password`, if it may not, given what the URL of
/// the object store reads as. The passwords are looked at first, then the URL.
pub open spec fn change_fault(
    settings: Settings,
    new_password: Seq<char>,
    url: Result<Seq<char>, Seq<char>>,
) -> Option<PasswordFault> {
    if passwords_fault(settings, new_password) is Some {
        passwords_fault(settings, new_password)
    } else {
        match url {
            Ok(_) => None,
            Err(text) => Some(PasswordFault::Other(text)),
        }
    }
}

/// Accepts the two passwords of a change, or says what is wrong with them.
pub fn check_passwords(settings: &Settings, new_password: &str) -> (result: Result<
    (),
    PasswordError,
>)
    ensures
        match result {
            Ok(_) => passwords_fault(*settings, new_password@) is None,
            Err(e) => passwords_fault(*settings, new_password@) == Some(e@),
        },
{
    if matches_default(settings.storage.encryption_password.as_str()) {
        return Err(PasswordError::CurrentPasswordIsDefault);
    }
    validate_password(new_password)
}

/// Prepares a change whose passwords are accepted, given what the URL of the object store reads
/// as.
pub fn prepare_change(
    settings: &Settings,
    new_password: &str,
    url: Result<String, String>,
) -> (plan: Result<PasswordChange, PasswordError>)
    ensures
        match url {
            Ok(url) => {
                &&& plan matches Ok(change)
                &&& change.url == url
                &&& texts(change.env_vars@) == environment(*settings)
                &&& change.current_password@ == settings.storage.encryption_password@
                &&& change.new_password@ == new_password@
                &&& change.step is OpenStore
            },
            Err(text) => {
                &&& plan matches Err(e)
                &&& e@ == PasswordFault::Other(text@)
            },
        },
{
    let env_vars = environment_variables(settings);
    match url {
        Ok(url) => Ok(
            PasswordChange {
                url,
                env_vars,
                current_password: settings.storage.encryption_password.as_str().to_owned(),
                new_password: new_password.to_owned(),
                step: ChangeStep::OpenStore,
            },
        ),
        Err(text) => Err(PasswordError::Other(text)),
    }
}

/// Decides whether the password may be changed to `new_password`, and prepares the change.
pub fn change_password(settings: &Settings, new_password: &str) -> (plan: Result<
    PasswordChange,
    PasswordError,
>)
    ensures
        ({
            let read = url_read(settings.storage.url@);
            match plan {
                Ok(change) => {
                    &&& change_fault(*settings, new_password@, read) is None
                    &&& read == Ok::<Seq<char>, Seq<char>>(change.url@)
                    &&& texts(change.env_vars@) == environment(*settings)
                    &&& change.current_password@ == settings.storage.encryption_password@
                    &&& change.new_password@ == new_password@
                    &&& change.step is OpenStore
                },
                Err(e) => change_fault(*settings, new_password@, read) == Some(e@),
            }
        }),
{
    match check_passwords(settings, new_password) {
        Ok(_) => prepare_change(settings, new_password, read_url(settings.storage.url.as_str())),
        Err(e) => Err(e),
    }
}

impl ChangeStep {
    /// The step that follows.
    pub open spec fn next(self) -> ChangeStep {
        match self {
            ChangeStep::OpenStore => ChangeStep::OpenDatabase,
            ChangeStep::OpenDatabase => ChangeStep::ChangeKey,
            ChangeStep::ChangeKey => ChangeStep::Flush,
            ChangeStep::Flush => ChangeStep::Close,
            ChangeStep::Close => ChangeStep::Done,
            ChangeStep::Done => ChangeStep::Done,
        }
    }

    /// How a failure of the step is reported.
    pub open spec fn fault(self, text: Seq<char>) -> PasswordFault {
        if self is ChangeKey {
            PasswordFault::EncryptionError(text)
        } else {
            PasswordFault::Other(text)
        }
    }

    /// How many steps are left.
    pub open spec fn steps_left(self) -> nat {
        match self {
            ChangeStep::OpenStore => 5,
            ChangeStep::OpenDatabase => 4,
            ChangeStep::ChangeKey => 3,
            ChangeStep::Flush => 2,
            ChangeStep::Close => 1,
            ChangeStep::Done => 0,
        }
    }
}

impl PasswordChange {
    /// Takes the outcome of the step that was due. A failure ends the change.
    pub fn step_taken(&mut self, outcome: Result<(), String>) -> (result: Result<(), PasswordError>)
        requires
            !(old(self).step is Done),
        ensures
            match outcome {
                Ok(_) => {
                    &&& result is Ok
                    &&& *final(self) == (PasswordChange {
                        step: old(self).step.next(),
                        ..*old(self)
                    })
                },
                Err(text) => {
                    &&& result matches Err(e)
                    &&& e@ == old(self).step.fault(text@)
                    &&& *final(self) == *old(self)
                },
            },
    {
        match outcome {
            Ok(_) => {
                self.step = match self.step {
                    ChangeStep::OpenStore => ChangeStep::OpenDatabase,
                    ChangeStep::OpenDatabase => ChangeStep::ChangeKey,
                    ChangeStep::ChangeKey => ChangeStep::Flush,
                    ChangeStep::Flush => ChangeStep::Close,
                    ChangeStep::Close => ChangeStep::Done,
                    ChangeStep::Done => ChangeStep::Done,
                };
                Ok(())
            },
            Err(text) => match self.step {
                ChangeStep::ChangeKey => Err(PasswordError::EncryptionError(text)),
                _ => Err(PasswordError::Other(text)),
            },
        }
    }
}

/// How each step of a change would turn out.
pub type Outcomes = spec_fn(ChangeStep) -> Result<(), Seq<char>>;

/// What a change comes to from `step` on.
pub open spec fn change_result(step: ChangeStep, outcomes: Outcomes) -> Result<(), PasswordFault>
    decreases step.steps_left(),
{
    if step is Done {
        Ok(())
    } else {
        match outcomes(step) {
            Ok(_) => change_result(step.next(), outcomes),
            Err(text) => Err(step.fault(text)),
        }
    }
}

/// A password that is accepted is never the default, so a later change away from it is not
/// refused on that account.
pub proof fn accepted_password_is_not_default(password: Seq<char>)
    requires
        password_fault(password) is None,
    ensures
        !is_default(password),
        forall|settings: Settings, new_password: Seq<char>, url: Result<Seq<char>, Seq<char>>|
            settings.storage.encryption_password@ == password ==> #[trigger] change_fault(
                settings,
                new_password,
                url,
            ) != Some(PasswordFault::CurrentPasswordIsDefault),
{
}

/// The default password is refused as a new password, and a change away from it is refused
/// whatever the new password is.
pub proof fn default_password_is_refused(
    settings: Settings,
    new_password: Seq<char>,
    url: Result<Seq<char>, Seq<char>>,
)
    requires
        is_default(settings.storage.encryption_password@),
    ensures
        password_fault("CHANGEME"@) == Some(PasswordFault::DefaultPassword),
        change_fault(settings, new_password, url) == Some(PasswordFault::CurrentPasswordIsDefault),
{
    reveal_strlit("CHANGEME");
}

/// Every option of either client becomes exactly one variable: those of AWS come first, each
/// client's keep their order, and no value is changed.
pub proof fn every_option_becomes_a_variable(
    settings: Settings,
    aws: Vec<(String, String)>,
    azure: Vec<(String, String)>,
    i: int,
)
    requires
        settings.aws == Some(aws),
        settings.azure == Some(azure),
    ensures
        environment(settings).len() == aws@.len() + azure@.len(),
        0 <= i < aws@.len() ==> environment(settings)[i] == ("aws_"@ + lowercased(aws@[i].0@),
            aws@[i].1@),
        0 <= i < azure@.len() ==> environment(settings)[aws@.len() + i] == ("azure_"@ + lowercased(
            azure@[i].0@,
        ), azure@[i].1@),
{
}

/// A change succeeds if and only if each of its steps does.
pub proof fn change_succeeds_only_as_a_whole(outcomes: Outcomes)
    ensures
        change_result(ChangeStep::OpenStore, outcomes) is Ok <==> {
            &&& outcomes(ChangeStep::OpenStore) is Ok
            &&& outcomes(ChangeStep::OpenDatabase) is Ok
            &&& outcomes(ChangeStep::ChangeKey) is Ok
            &&& outcomes(ChangeStep::Flush) is Ok
            &&& outcomes(ChangeStep::Close) is Ok
        },
{
    reveal_with_fuel(change_result, 6);
}

/// A failure is reported as an encryption error exactly if the store and the database could be
/// opened and the encryption key could not be wrapped anew.
pub proof fn only_the_key_change_is_an_encryption_error(outcomes: Outcomes, text: Seq<char>)
    ensures
        change_result(ChangeStep::OpenStore, outcomes) == Err::<(), PasswordFault>(
            PasswordFault::EncryptionError(text),
        ) <==> {
            &&& outcomes(ChangeStep::OpenStore) is Ok
            &&& outcomes(ChangeStep::OpenDatabase) is Ok
            &&& outcomes(ChangeStep::ChangeKey) == Err::<(), Seq<char>>(text)
        },
{
    reveal_with_fuel(change_result, 6);
}

/// A password is accepted exactly if it has at least eight characters and is not the default.
/// It is refused as empty exactly if it has no character, as too short exactly if it has one to
/// seven, and as the default exactly if it is `CHANGEME`.
pub proof fn validation_goes_by_length_and_default(
    password: &str,
    result: Result<(), PasswordError>,
)
    requires
        call_ensures(validate_password, (password,), result),
    ensures
        result is Ok <==> password@.len() >= 8 && password@ != "CHANGEME"@,
        (result matches Err(PasswordError::EmptyPassword)) <==> password@.len() == 0,
        (result matches Err(PasswordError::TooShort)) <==> 1 <= password@.len() <= 7,
        (result matches Err(PasswordError::DefaultPassword)) <==> password@ == "CHANGEME"@,
{
    reveal_strlit("CHANGEME");
}

/// Length is never held against a password: one that is no shorter than an accepted one, and is
/// not the default, is accepted too.
pub proof fn longer_passwords_are_accepted(
    short: &str,
    long: &str,
    first: Result<(), PasswordError>,
    second: Result<(), PasswordError>,
)
    requires
        call_ensures(validate_password, (short,), first),
        call_ensures(validate_password, (long,), second),
        short@.len() <= long@.len(),
        long@ != "CHANGEME"@,
    ensures
        first is Ok ==> second is Ok,
{
}

/// The new password is looked at whatever the current one is. Unless the current one is the
/// default, the two passwords of a change are refused exactly as the new one alone is.
pub proof fn new_password_is_always_validated(
    settings: &Settings,
    new_password: &str,
    result: Result<(), PasswordError>,
    alone: Result<(), PasswordError>,
)
    requires
        call_ensures(check_passwords, (settings, new_password), result),
        call_ensures(validate_password, (new_password,), alone),
    ensures
        ({
            let current = settings.storage.encryption_password@;
            &&& result is Ok <==> current != "CHANGEME"@ && new_password@.len() >= 8
                && new_password@ != "CHANGEME"@
            &&& (result matches Err(PasswordError::CurrentPasswordIsDefault)) <==> current
                == "CHANGEME"@
            &&& current != "CHANGEME"@ ==> match alone {
                Ok(_) => result is Ok,
                Err(a) => result matches Err(e) && e@ == a@,
            }
        }),
{
    reveal_strlit("CHANGEME");
}

/// A change goes ahead exactly if the current password is not the default, the new one has at
/// least eight characters and is not the default, and the URL can be read. Each refusal has its
/// own cause. A change that goes ahead carries both passwords, the URL and every client option.
pub proof fn change_is_accepted_exactly_if_all_is_well(
    settings: &Settings,
    new_password: &str,
    plan: Result<PasswordChange, PasswordError>,
)
    requires
        call_ensures(change_password, (settings, new_password), plan),
    ensures
        ({
            let current = settings.storage.encryption_password@;
            let new = new_password@;
            let url = url_read(settings.storage.url@);
            let passwords_good = current != "CHANGEME"@ && new.len() >= 8 && new != "CHANGEME"@;
            &&& plan is Ok <==> passwords_good && url is Ok
            &&& (plan matches Err(PasswordError::CurrentPasswordIsDefault)) <==> current
                == "CHANGEME"@
            &&& (plan matches Err(PasswordError::EmptyPassword)) <==> current != "CHANGEME"@
                && new.len() == 0
            &&& (plan matches Err(PasswordError::TooShort)) <==> current != "CHANGEME"@ && 1
                <= new.len() <= 7
            &&& (plan matches Err(PasswordError::DefaultPassword)) <==> current != "CHANGEME"@
                && new == "CHANGEME"@
            &&& (plan matches Err(PasswordError::Other(_))) <==> passwords_good && url is Err
            &&& plan matches Err(PasswordError::Other(text)) ==> url == Err::<
                Seq<char>,
                Seq<char>,
            >(text@)
            &&& plan matches Ok(change) ==> {
                &&& url == Ok::<Seq<char>, Seq<char>>(change.url@)
                &&& change.current_password@ == current
                &&& change.new_password@ == new
                &&& change.step == ChangeStep::OpenStore
            }
        }),
{
    reveal_strlit("CHANGEME");
}

/// How many options a client has.
pub open spec fn option_count(options: Option<Vec<(String, String)>>) -> int {
    match options {
        Some(options) => options@.len() as int,
        None => 0,
    }
}

/// Each option of a client that is configured becomes one variable, whether or not the other
/// client is configured, and nothing else does. Option `i` of AWS becomes variable `i`, and the
/// options of Azure follow in order. A variable is the prefix and the option's name in lowercase,
/// and has the option's value.
pub proof fn each_option_becomes_its_variable(settings: &Settings, vars: Vec<(String, String)>)
    requires
        call_ensures(environment_variables, (settings,), vars),
    ensures
        vars@.len() == option_count(settings.aws) + option_count(settings.azure),
        settings.aws matches Some(aws) ==> forall|i: int|
            #![trigger aws@[i]]
            0 <= i < aws@.len() ==> vars@[i].0@ == "aws_"@ + lowercased(aws@[i].0@)
                && vars@[i].1@ == aws@[i].1@,
        settings.azure matches Some(azure) ==> forall|j: int|
            #![trigger azure@[j]]
            0 <= j < azure@.len() ==> vars@[option_count(settings.aws) + j].0@ == "azure_"@
                + lowercased(azure@[j].0@) && vars@[option_count(settings.aws) + j].1@
                == azure@[j].1@,
{
    lemma_variables(settings, vars@);
}

/// What the names and values of variables are that stand for all options.
proof fn lemma_variables(settings: &Settings, vars: Seq<(String, String)>)
    requires
        texts(vars) == environment(*settings),
    ensures
        vars.len() == option_count(settings.aws) + option_count(settings.azure),
        settings.aws matches Some(aws) ==> forall|i: int|
            #![trigger aws@[i]]
            0 <= i < aws@.len() ==> vars[i].0@ == "aws_"@ + lowercased(aws@[i].0@) && vars[i].1@
                == aws@[i].1@,
        settings.azure matches Some(azure) ==> forall|j: int|
            #![trigger azure@[j]]
            0 <= j < azure@.len() ==> vars[option_count(settings.aws) + j].0@ == "azure_"@
                + lowercased(azure@[j].0@) && vars[option_count(settings.aws) + j].1@
                == azure@[j].1@,
{
    let all = environment(*settings);
    assert(all.len() == texts(vars).len());
    if let Some(aws) = settings.aws {
        assert forall|i: int| #![trigger aws@[i]] 0 <= i < aws@.len() implies vars[i].0@ == "aws_"@
            + lowercased(aws@[i].0@) && vars[i].1@ == aws@[i].1@ by {
            assert(texts(vars)[i] == all[i]);
        }
    }
    if let Some(azure) = settings.azure {
        let n = option_count(settings.aws);
        assert forall|j: int| #![trigger azure@[j]] 0 <= j < azure@.len() implies vars[n + j].0@
            == "azure_"@ + lowercased(azure@[j].0@) && vars[n + j].1@ == azure@[j].1@ by {
            assert(texts(vars)[n + j] == all[n + j]);
        }
    }
}

/// The options that a change reaches the object store with are those that
/// `environment_variables` makes of the settings, name for name and value for value.
pub proof fn change_carries_every_option(
    settings: &Settings,
    new_password: &str,
    plan: Result<PasswordChange, PasswordError>,
)
    requires
        call_ensures(change_password, (settings, new_password), plan),
    ensures
        plan matches Ok(change) ==> {
            let vars = change.env_vars@;
            &&& vars.len() == option_count(settings.aws) + option_count(settings.azure)
            &&& settings.aws matches Some(aws) ==> forall|i: int|
                #![trigger aws@[i]]
                0 <= i < aws@.len() ==> vars[i].0@ == "aws_"@ + lowercased(aws@[i].0@)
                    && vars[i].1@ == aws@[i].1@
            &&& settings.azure matches Some(azure) ==> forall|j: int|
                #![trigger azure@[j]]
                0 <= j < azure@.len() ==> vars[option_count(settings.aws) + j].0@ == "azure_"@
                    + lowercased(azure@[j].0@) && vars[option_count(settings.aws) + j].1@
                    == azure@[j].1@
        },
{
    if let Ok(change) = plan {
        lemma_variables(settings, change.env_vars@);
    }
}

/// Every error has its own text, and a cause that was given appears in it unchanged.
pub proof fn errors_say_what_is_wrong(e: &PasswordError, text: String)
    requires
        call_ensures(PasswordError::message, (e,), text),
    ensures
        match *e {
            PasswordError::EmptyPassword => text@ == "Password cannot be empty"@,
            PasswordError::TooShort => text@ == "Password must be at least 8 characters long"@,
            PasswordError::DefaultPassword => text@
                == "Please choose a secure password, not 'CHANGEME'"@,
            PasswordError::CurrentPasswordIsDefault => text@
                == "Current password is still the default. Please update your config file first"@,
            PasswordError::EncryptionError(cause) => text@
                == "Failed to change encryption password: "@ + cause@,
            PasswordError::Other(cause) => text@ == cause@,
        },
{
}

/// The steps of a change follow each other: the store, the database, the key, the flush, the
/// close. A step that succeeds leads to the next and changes nothing else. One that fails changes
/// nothing at all, and is reported with its text: as an encryption error if it is the change of
/// the key, else as it is.
pub proof fn steps_come_in_order(
    change: &mut PasswordChange,
    outcome: Result<(), String>,
    result: Result<(), PasswordError>,
)
    requires
        !(old(change).step is Done),
        call_ensures(PasswordChange::step_taken, (change, outcome), result),
    ensures
        final(change).url == old(change).url,
        final(change).env_vars == old(change).env_vars,
        final(change).current_password == old(change).current_password,
        final(change).new_password == old(change).new_password,
        result is Ok <==> outcome is Ok,
        outcome is Ok ==> match old(change).step {
            ChangeStep::OpenStore => final(change).step is OpenDatabase,
            ChangeStep::OpenDatabase => final(change).step is ChangeKey,
            ChangeStep::ChangeKey => final(change).step is Flush,
            ChangeStep::Flush => final(change).step is Close,
            ChangeStep::Close => final(change).step is Done,
            ChangeStep::Done => true,
        },
        outcome matches Err(text) ==> {
            &&& final(change).step == old(change).step
            &&& old(change).step is ChangeKey ==> (result matches Err(
                PasswordError::EncryptionError(cause),
            ) && cause@ == text@)
            &&& !(old(change).step is ChangeKey) ==> (result matches Err(
                PasswordError::Other(cause),
            ) && cause@ == text@)
        },
{
}

/// Lowercasing an ASCII character moves the letters `A` to `Z` to `a` to `z` and keeps the rest.
pub proof fn ascii_lowercase(c: char)
    ensures
        65 <= c as u32 <= 90 ==> ascii_lower(c) as u32 == c as u32 + 32,
        !(65 <= c as u32 <= 90) ==> ascii_lower(c) == c,
        ascii_lower(ascii_lower(c)) == ascii_lower(c),
{
}

/// A prepared change holds the URL as it was read, both passwords and every client option, and
/// starts with the store. A URL that could not be read is reported with its text.
pub proof fn prepared_change_holds_everything(
    settings: &Settings,
    new_password: &str,
    url: Result<String, String>,
    plan: Result<PasswordChange, PasswordError>,
)
    requires
        call_ensures(prepare_change, (settings, new_password, url), plan),
    ensures
        url matches Ok(read) ==> {
            &&& plan matches Ok(change)
            &&& change.url@ == read@
            &&& change.current_password@ == settings.storage.encryption_password@
            &&& change.new_password@ == new_password@
            &&& change.step == ChangeStep::OpenStore
            &&& change.env_vars@.len() == option_count(settings.aws) + option_count(settings.azure)
        },
        url matches Err(text) ==> (plan matches Err(PasswordError::Other(cause)) && cause@ == text@),
{
    if let Ok(change) = plan {
        lemma_variables(settings, change.env_vars@);
    }
}

/// The name of a variable is the prefix followed by the lowercase name, and its value is that of
/// the option.
pub proof fn variables_are_prefixed(
    prefix: &str,
    lower: &str,
    value: &str,
    var: (String, String),
)
    requires
        call_ensures(prefixed_variable, (prefix, lower, value), var),
    ensures
        var.0@.len() == prefix@.len() + lower@.len(),
        var.0@.take(prefix@.len() as int) == prefix@,
        var.0@.skip(prefix@.len() as int) == lower@,
        var.1@ == value@,
{
    assert((prefix@ + lower@).take(prefix@.len() as int) =~= prefix@);
    assert((prefix@ + lower@).skip(prefix@.len() as int) =~= lower@);
}

} // verus!
