//! The host's master key: a file that only its owner reads.
use vstd::prelude::*;

use crate::outside;
use crate::steps;
use crate::steps::Outcome;

verus! {

/// The mode of the key's file.
pub const KEY_MODE: u32 = 0o600;

/// Whether a file is closed to everyone but its owner.
pub fn is_private_mode(mode: u32) -> (yes: bool)
    ensures
        yes == (mode & 0o077 == 0),
{
    mode & 0o077 == 0
}

/// A random master key, as its file holds it, or what the system tells where it has no random
/// source.
pub fn master_key() -> (stored: Result<Vec<u8>, String>)
    ensures
        stored matches Ok(stored) ==> exists|key: Seq<u8>|
            key.len() == 32 && stored@ == #[trigger] outside::stored_key(key) && outside::key_of(
                stored@,
            ) == Ok::<Seq<u8>, Seq<char>>(key),
{
    drawn_key(outside::random_key())
}

/// What a draw of random bytes gives: the bytes as the key's file holds them, or what is told of a
/// draw that failed.
pub fn drawn_key(drawn: Result<Vec<u8>, String>) -> (stored: Result<Vec<u8>, String>)
    requires
        drawn matches Ok(key) ==> key@.len() == 32,
    ensures
        match drawn {
            Ok(key) => {
                &&& stored is Ok
                &&& stored->Ok_0@ == outside::stored_key(key@)
                &&& outside::key_of(stored->Ok_0@) is Ok
                &&& outside::key_of(stored->Ok_0@)->Ok_0 == key@
            },
            Err(told) => stored is Err && stored->Err_0@ == told@,
        },
{
    match drawn {
        Ok(key) => Ok(store_key(key.as_slice())),
        Err(told) => Err(told),
    }
}

/// A master key, as its file holds it: reading the file gives the key back.
pub fn store_key(key: &[u8]) -> (stored: Vec<u8>)
    requires
        key@.len() == 32,
    ensures
        stored@ == outside::stored_key(key@),
        outside::key_of(stored@) is Ok,
        outside::key_of(stored@)->Ok_0 == key@,
{
    outside::write_key(key)
}

/// The master key that a file holds.
pub fn read_key(stored: &[u8]) -> (key: Result<Vec<u8>, String>)
    ensures
        match key {
            Ok(key) => outside::key_of(stored@) matches Ok(read) && read == key@
                && key@.len() == 32,
            Err(told) => outside::key_of(stored@) matches Err(expected) && expected == told@,
        },
{
    outside::read_key(stored)
}

/// How the attempt to create the key's file ended.
#[derive(Debug)]
pub enum Creation {
    Written,
    /// Another host was faster.
    AlreadyThere,
    Failed(String),
}

/// What is known so far while the master key is being loaded.
#[derive(Debug)]
pub struct KeyProgress {
    /// Whether the file is there.
    pub exists: bool,
    /// Whether its directory is there, or it has none.
    pub directory: Outcome<bool>,
    /// That a key was made.
    pub made: Outcome<()>,
    pub created: Option<Creation>,
    /// The mode of the file.
    pub mode: Outcome<u32>,
    /// That the file holds a key.
    pub read: Outcome<()>,
}

/// What is to be done next while the master key is being loaded.
#[derive(Debug)]
pub enum KeyStep {
    CreateDirectory,
    MakeKey,
    CreateFile,
    ReadMode,
    ReadKey,
    Ready,
    Fail(String),
}

impl KeyProgress {
    pub fn start(exists: bool) -> (progress: KeyProgress)
        ensures
            progress.exists == exists,
            progress.directory is None,
            progress.made is None,
            progress.created is None,
            progress.mode is None,
            progress.read is None,
    {
        KeyProgress { exists, directory: None, made: None, created: None, mode: None, read: None }
    }

    /// The file is there: it was before, or this host or another one created it.
    pub open spec fn present(&self) -> bool {
        ||| self.exists
        ||| steps::said(self.directory, true) && steps::done(self.made) && (self.created == Some(
            Creation::Written,
        ) || self.created == Some(Creation::AlreadyThere))
    }

    /// The file is there and closed to everyone but its owner.
    pub open spec fn private(&self) -> bool {
        self.present() && match self.mode {
            Some(Ok(mode)) => mode & 0o077 == 0,
            _ => false,
        }
    }

    /// What is told where there is no key.
    pub open spec fn failed(&self) -> Option<Seq<char>> {
        if !self.present() {
            if !steps::done(self.directory) {
                steps::failure(self.directory)
            } else if steps::said(self.directory, false) {
                Some("密钥目录无效"@)
            } else if steps::failure(self.made) is Some {
                Some(steps::explained("生成主密钥失败"@, steps::failure(self.made)->0))
            } else {
                match self.created {
                    Some(Creation::Failed(told)) => if steps::done(self.made) {
                        Some(told@)
                    } else {
                        None
                    },
                    _ => None,
                }
            }
        } else if !steps::done(self.mode) {
            steps::failure(self.mode)
        } else if !self.private() {
            Some("宿主主密钥文件权限必须为 0600"@)
        } else {
            steps::failure(self.read)
        }
    }

    /// Whether a step is the one to be taken next.
    pub open spec fn asks(&self, step: KeyStep) -> bool {
        &&& step is CreateDirectory <==> !self.exists && self.directory is None
        &&& step is MakeKey <==> !self.exists && steps::said(self.directory, true)
            && self.made is None
        &&& step is CreateFile <==> !self.exists && steps::said(self.directory, true)
            && steps::done(self.made) && self.created is None
        &&& step is ReadMode <==> self.present() && self.mode is None
        &&& step is ReadKey <==> self.private() && self.read is None
        &&& step is Ready <==> self.private() && steps::done(self.read)
        &&& step is Fail <==> self.failed() is Some
        &&& step matches KeyStep::Fail(told) ==> self.failed() == Some(told@)
    }

    /// What is to be done next: a key is made where there is none, and is read only from a file
    /// that is closed to everyone but its owner.
    pub fn next(&self) -> (step: KeyStep)
        ensures
            self.asks(step),
    {
        if !self.exists {
            match &self.directory {
                None => return KeyStep::CreateDirectory,
                Some(Err(told)) => return KeyStep::Fail(told.clone()),
                Some(Ok(false)) => return KeyStep::Fail("密钥目录无效".to_owned()),
                Some(Ok(true)) => {},
            }
            match &self.made {
                None => return KeyStep::MakeKey,
                Some(Err(told)) => return KeyStep::Fail(
                    steps::explain("生成主密钥失败", told.as_str()),
                ),
                Some(Ok(())) => {},
            }
            match &self.created {
                None => return KeyStep::CreateFile,
                Some(Creation::Failed(told)) => return KeyStep::Fail(told.clone()),
                Some(Creation::Written) => {},
                Some(Creation::AlreadyThere) => {},
            }
        }
        match &self.mode {
            None => return KeyStep::ReadMode,
            Some(Err(told)) => return KeyStep::Fail(told.clone()),
            Some(Ok(mode)) => {
                if !is_private_mode(*mode) {
                    return KeyStep::Fail("宿主主密钥文件权限必须为 0600".to_owned());
                }
            },
        }
        match &self.read {
            None => KeyStep::ReadKey,
            Some(Err(told)) => KeyStep::Fail(told.clone()),
            Some(Ok(())) => KeyStep::Ready,
        }
    }
}

/// A key that others could read is never used.
pub proof fn lemma_open_key_is_not_used(progress: KeyProgress, mode: u32)
    requires
        progress.mode == Some(Ok::<u32, String>(mode)),
        mode & 0o077 != 0,
    ensures
        !progress.private(),
{
}

// Laws

/// Where there is no file, its directory is made, a key is drawn and the file is created, in this
/// order; a failure on the way is told.
pub proof fn lemma_missing_key_is_made(progress: KeyProgress, step: KeyStep)
    requires
        progress.asks(step),
        !progress.exists,
    ensures
        progress.directory is None ==> step is CreateDirectory,
        (progress.directory is Some && progress.directory->0 is Err)
            ==> step is Fail && step->Fail_0@ == progress.directory->0->Err_0@,
        progress.directory == Some(Ok::<bool, String>(false))
            ==> step is Fail && step->Fail_0@ == "密钥目录无效"@,
        progress.directory == Some(Ok::<bool, String>(true)) && progress.made is None
            ==> step is MakeKey,
        progress.directory == Some(Ok::<bool, String>(true)) && (progress.made is Some
            && progress.made->0 is Err) ==> step is Fail
            && step->Fail_0@ == "生成主密钥失败"@ + ": "@ + progress.made->0->Err_0@,
        progress.directory == Some(Ok::<bool, String>(true)) && (progress.made is Some
            && progress.made->0 is Ok) && progress.created is None ==> step is CreateFile,
        progress.directory == Some(Ok::<bool, String>(true)) && (progress.made is Some
            && progress.made->0 is Ok) && progress.created is Some
            && progress.created->0 is Failed
            ==> step is Fail && step->Fail_0@ == progress.created->0->Failed_0@,
        step is ReadMode || step is ReadKey || step is Ready
            ==> progress.directory == Some(Ok::<bool, String>(true)) && (progress.made is Some
            && progress.made->0 is Ok) && progress.created is Some
            && !(progress.created->0 is Failed),
{
}

/// A key that is there, whoever created its file, is read only where group and others have no
/// access to the file.
pub proof fn lemma_key_is_read_from_a_private_file(progress: KeyProgress, step: KeyStep)
    requires
        progress.asks(step),
        progress.exists || progress.directory == Some(Ok::<bool, String>(true))
            && (progress.made is Some && progress.made->0 is Ok)
            && (progress.created == Some(Creation::Written)
            || progress.created == Some(Creation::AlreadyThere)),
    ensures
        progress.mode is None ==> step is ReadMode,
        (progress.mode is Some && progress.mode->0 is Err)
            ==> step is Fail && step->Fail_0@ == progress.mode->0->Err_0@,
        (progress.mode is Some && progress.mode->0 is Ok)
            && progress.mode->0->Ok_0 & 0o077 != 0
            ==> step is Fail && step->Fail_0@ == "宿主主密钥文件权限必须为 0600"@,
        (progress.mode is Some && progress.mode->0 is Ok) && progress.mode->0->Ok_0 & 0o077 == 0
            && progress.read is None ==> step is ReadKey,
        (progress.mode is Some && progress.mode->0 is Ok) && progress.mode->0->Ok_0 & 0o077 == 0
            && (progress.read is Some && progress.read->0 is Err)
            ==> step is Fail && step->Fail_0@ == progress.read->0->Err_0@,
        (progress.mode is Some && progress.mode->0 is Ok) && progress.mode->0->Ok_0 & 0o077 == 0
            && (progress.read is Some && progress.read->0 is Ok) ==> step is Ready,
{
}

} // verus!
