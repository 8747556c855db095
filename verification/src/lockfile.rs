//! One run over a lock file: from the texts of the two files to the new text
//! of the lock file, or to the reason why there is none.
//!
//! Reading and writing the files is the caller's part. A file that is absent
//! is handed in as `None`.

use crate::codec::{parse_document, parsed_json, pretty_json, render_document};
use crate::json::{Json, JsonValue};
use crate::rewrite::{rewritten, update_urls};
use vstd::prelude::*;

verus! {

/// The name of the configuration file, relative to the working directory.
pub const CONFIG_FILE: &'static str = "pkg.config.json";

/// The name of the lock file, relative to the working directory.
pub const LOCK_FILE: &'static str = "package-lock.json";

/// The flag that selects the local registry.
pub const LOCAL_FLAG: &'static str = "--local";

/// The flag that selects the remote registry.
pub const REMOTE_FLAG: &'static str = "--remote";

/// The key of the local origin in the configuration.
pub const LOCAL_KEY: &'static str = "local";

/// The key of the remote origin in the configuration.
pub const REMOTE_KEY: &'static str = "remote";

/// Which registry the lock file is to point at.
#[derive(Clone, Copy, Debug, PartialEq, Eq, Structural)]
pub enum Mode {
    UseLocal,
    UseRemote,
}

/// One of the two files of a run.
#[derive(Clone, Copy, Debug, PartialEq, Eq, Structural)]
pub enum Source {
    Config,
    Lock,
}

/// Why a run produced no new lock file.
#[derive(Clone, Copy, Debug, PartialEq, Eq, Structural)]
pub enum UpdateError {
    /// The file does not exist.
    FileNotFound(Source),
    /// The file holds no JSON.
    MalformedJson(Source),
    /// The configuration has no string under the key of the mode.
    MissingConfigField(Mode),
    /// The new lock file could not be printed or written.
    WriteFailed,
}

impl Mode {
    /// The mode that a command-line flag selects.
    pub open spec fn of_flag(flag: Seq<char>) -> Option<Mode> {
        if flag == LOCAL_FLAG@ {
            Some(Mode::UseLocal)
        } else if flag == REMOTE_FLAG@ {
            Some(Mode::UseRemote)
        } else {
            None
        }
    }

    /// The key under which the configuration holds the origin of the mode.
    pub open spec fn key(self) -> Seq<char> {
        match self {
            Mode::UseLocal => LOCAL_KEY@,
            Mode::UseRemote => REMOTE_KEY@,
        }
    }

    /// The mode that a command-line flag selects: `--local` or `--remote`.
    /// Any other text selects none.
    pub fn from_flag(flag: &str) -> (mode: Option<Mode>)
        ensures
            mode == Self::of_flag(flag@),
    {
        let given = String::from_str(flag);
        if given == String::from_str(LOCAL_FLAG) {
            Some(Mode::UseLocal)
        } else if given == String::from_str(REMOTE_FLAG) {
            Some(Mode::UseRemote)
        } else {
            None
        }
    }

    /// The key under which the configuration holds the origin of the mode.
    pub fn config_key(self) -> (key: &'static str)
        ensures
            key@ == self.key(),
    {
        match self {
            Mode::UseLocal => LOCAL_KEY,
            Mode::UseRemote => REMOTE_KEY,
        }
    }
}

impl Source {
    /// The name of the file, relative to the working directory.
    pub fn file_name(self) -> (name: &'static str)
        ensures
            name@ == match self {
                Source::Config => CONFIG_FILE@,
                Source::Lock => LOCK_FILE@,
            },
    {
        match self {
            Source::Config => CONFIG_FILE,
            Source::Lock => LOCK_FILE,
        }
    }
}

/// The origin that the configuration `config` names for `mode`: the string
/// under the key of the mode. `None` where the key is absent or holds no
/// string.
pub open spec fn origin_in(config: JsonValue, mode: Mode) -> Option<Seq<char>> {
    match config.field(mode.key()) {
        Some(JsonValue::String(origin)) => Some(origin),
        _ => None,
    }
}

/// The origin that the configuration names for `mode`.
pub fn select_origin(config: &Json, mode: Mode) -> (origin: Option<&str>)
    ensures
        match origin {
            Some(o) => origin_in(config@, mode) == Some(o@),
            None => origin_in(config@, mode) is None,
        },
{
    match config.get(mode.config_key()) {
        Some(value) => value.as_str(),
        None => None,
    }
}

/// What a run on two parsed documents leaves in the lock document: the
/// rewritten document, or the reason why nothing was rewritten.
pub open spec fn updated_lock(mode: Mode, config: JsonValue, lock: JsonValue) -> Result<
    JsonValue,
    UpdateError,
> {
    match origin_in(config, mode) {
        Some(origin) => Ok(rewritten(lock, origin)),
        None => Err(UpdateError::MissingConfigField(mode)),
    }
}

/// Rewrites the lock document `lock` to the origin that `config` names for
/// `mode`. Without such an origin the lock document stays as it is.
pub fn update_lock(mode: Mode, config: &Json, lock: &mut Json) -> (done: Result<(), UpdateError>)
    ensures
        match updated_lock(mode, config@, old(lock)@) {
            Ok(doc) => done is Ok && final(lock)@ == doc,
            Err(reason) => done == Err::<(), UpdateError>(reason) && final(lock)@ == old(lock)@,
        },
        final(lock)@.well_formed() == old(lock)@.well_formed(),
{
    match select_origin(config, mode) {
        Some(origin) => {
            update_urls(lock, origin);
            Ok(())
        },
        None => Err(UpdateError::MissingConfigField(mode)),
    }
}

/// The document of a file as parsed, `None` standing for a file that holds
/// no JSON.
pub open spec fn doc_given(doc: Option<Json>) -> Option<JsonValue> {
    match doc {
        Some(d) => Some(d@),
        None => None,
    }
}

/// What a run makes of the two files as parsed, `None` standing for a file
/// that holds no JSON: the rewritten lock document, or the reason why there
/// is none. A lock file without JSON is reported before a configuration
/// without JSON.
pub open spec fn updated_parsed(
    mode: Mode,
    config: Option<JsonValue>,
    lock: Option<JsonValue>,
) -> Result<JsonValue, UpdateError> {
    match lock {
        None => Err(UpdateError::MalformedJson(Source::Lock)),
        Some(lock_doc) => match config {
            None => Err(UpdateError::MalformedJson(Source::Config)),
            Some(config_doc) => updated_lock(mode, config_doc, lock_doc),
        },
    }
}

/// The run from the point where both files have been parsed, `None` standing
/// for a file that held no JSON: returns the rewritten lock document, or the
/// reason why there is none.
pub fn update_parsed(mode: Mode, config: Option<Json>, lock: Option<Json>) -> (outcome: Result<
    Json,
    UpdateError,
>)
    ensures
        match outcome {
            Ok(doc) => updated_parsed(mode, doc_given(config), doc_given(lock)) == Ok::<
                JsonValue,
                UpdateError,
            >(doc@) && doc@.well_formed() == lock->0@.well_formed(),
            Err(reason) => updated_parsed(mode, doc_given(config), doc_given(lock)) == Err::<
                JsonValue,
                UpdateError,
            >(reason),
        },
{
    let mut lock = match lock {
        Some(doc) => doc,
        None => { return Err(UpdateError::MalformedJson(Source::Lock)); },
    };
    let config = match config {
        Some(doc) => doc,
        None => { return Err(UpdateError::MalformedJson(Source::Config)); },
    };
    match update_lock(mode, &config, &mut lock) {
        Ok(()) => Ok(lock),
        Err(reason) => Err(reason),
    }
}

/// The text of a file, `None` standing for a file that does not exist.
pub open spec fn text_given(text: Option<&str>) -> Option<Seq<char>> {
    match text {
        Some(t) => Some(t@),
        None => None,
    }
}

/// The new text of the lock file after a run, or the reason why there is
/// none. The steps, in their order: both files must exist, the configuration
/// first; both must hold JSON, the lock file first; the configuration must
/// name an origin for the mode; the rewritten lock document must print.
pub open spec fn updated_lock_text(
    mode: Mode,
    config_text: Option<Seq<char>>,
    lock_text: Option<Seq<char>>,
) -> Result<Seq<char>, UpdateError> {
    if config_text is None {
        Err(UpdateError::FileNotFound(Source::Config))
    } else if lock_text is None {
        Err(UpdateError::FileNotFound(Source::Lock))
    } else {
        match updated_parsed(mode, parsed_json(config_text->0), parsed_json(lock_text->0)) {
            Err(reason) => Err(reason),
            Ok(doc) => match pretty_json(doc) {
                Some(text) => Ok(text),
                None => Err(UpdateError::WriteFailed),
            },
        }
    }
}

/// Runs the tool on the texts of the configuration file and of the lock file,
/// `None` standing for a file that does not exist. Returns the text to write
/// to the lock file, or the reason why nothing is to be written.
pub fn update_urls_in_package_lock(
    mode: Mode,
    config_text: Option<&str>,
    lock_text: Option<&str>,
) -> (outcome: Result<String, UpdateError>)
    ensures
        match outcome {
            Ok(text) => updated_lock_text(mode, text_given(config_text), text_given(lock_text))
                == Ok::<Seq<char>, UpdateError>(text@),
            Err(reason) => updated_lock_text(mode, text_given(config_text), text_given(lock_text))
                == Err::<Seq<char>, UpdateError>(reason),
        },
{
    let config_text = match config_text {
        Some(text) => text,
        None => { return Err(UpdateError::FileNotFound(Source::Config)); },
    };
    let lock_text = match lock_text {
        Some(text) => text,
        None => { return Err(UpdateError::FileNotFound(Source::Lock)); },
    };
    let lock = parse_document(lock_text);
    let config = parse_document(config_text);
    match update_parsed(mode, config, lock) {
        Ok(doc) => match render_document(&doc) {
            Some(text) => Ok(text),
            None => Err(UpdateError::WriteFailed),
        },
        Err(reason) => Err(reason),
    }
}

} // verus!
