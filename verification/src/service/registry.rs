//! Keeping Apple's original ImagePath in the registry.
use crate::service::calls::{
    Call, OsError, Progress, Reply, ERROR_FILE_NOT_FOUND, ERROR_SUCCESS, HKEY_LOCAL_MACHINE, KEY_READ,
    KEY_WRITE, REG_SUBKEY, REG_SZ, REG_VALUE_ORIGINAL,
};
use crate::utf16::{
    decode, decoded, law_trim_inverts_wide, trim_nuls, wide, wide_of, without_last_nuls,
    without_trailing_nuls,
};
use vstd::prelude::*;

verus! {

/// How many bytes a number of units takes, in the 32 bits that the registry calls have for it.
pub open spec fn byte_len_of(units: nat) -> u32 {
    ((2 * units) % 0x1_0000_0000) as u32
}

/// How many units hold a number of bytes.
pub open spec fn units_for(bytes: u32) -> nat {
    ((bytes + 1) / 2) as nat
}

/// Computes [`byte_len_of`].
fn byte_len(units: usize) -> (r: u32)
    ensures
        r == byte_len_of(units as nat),
{
    let low: u64 = units as u64 % 0x1_0000_0000;
    (low * 2 % 0x1_0000_0000) as u32
}

/// Where saving the original ImagePath has got to.
#[derive(Clone, Copy, Debug, PartialEq, Eq, Structural)]
pub enum SaveOriginal {
    CreateKey,
    SetValue,
}

impl SaveOriginal {
    /// The call that is due, where `path` is to be saved.
    pub open spec fn due(self, path: Seq<char>) -> Call<Seq<u16>> {
        match self {
            SaveOriginal::CreateKey => Call::CreateKey {
                root: HKEY_LOCAL_MACHINE,
                subkey: wide_of(REG_SUBKEY@),
                access: KEY_WRITE,
            },
            // The data of a REG_SZ value is the units with the NUL at their end.
            SaveOriginal::SetValue => Call::SetValue {
                name: wide_of(REG_VALUE_ORIGINAL@),
                value_type: REG_SZ,
                data: wide_of(path),
                byte_len: byte_len_of(wide_of(path).len()),
            },
        }
    }

    /// What the reply to the due call leads to: the value is set once the key is there, and any
    /// code but success is an error.
    pub open spec fn next(self, reply: Reply<Seq<u16>>) -> Progress<
        SaveOriginal,
        Result<(), OsError<Seq<char>>>,
    > {
        if reply.code != ERROR_SUCCESS {
            Progress::Done(Err(OsError::Os(reply.code)))
        } else if self is CreateKey {
            Progress::Pending(SaveOriginal::SetValue)
        } else {
            Progress::Done(Ok(()))
        }
    }

    /// The call that is due, where `path` is to be saved.
    pub fn call(&self, path: &str) -> (r: Call<Vec<u16>>)
        ensures
            r@ == self.due(path@),
    {
        match self {
            SaveOriginal::CreateKey => Call::CreateKey {
                root: HKEY_LOCAL_MACHINE,
                subkey: wide(REG_SUBKEY),
                access: KEY_WRITE,
            },
            SaveOriginal::SetValue => {
                let data = wide(path);
                let byte_len = byte_len(data.len());
                Call::SetValue { name: wide(REG_VALUE_ORIGINAL), value_type: REG_SZ, data, byte_len }
            },
        }
    }
}

/// The model of what [`save_original`] gives.
pub open spec fn saved_view(
    p: Progress<SaveOriginal, Result<(), OsError<String>>>,
) -> Progress<SaveOriginal, Result<(), OsError<Seq<char>>>> {
    match p {
        Progress::Pending(at) => Progress::Pending(at),
        Progress::Done(Ok(())) => Progress::Done(Ok(())),
        Progress::Done(Err(e)) => Progress::Done(Err(e@)),
    }
}

/// Takes the saving of the original ImagePath on from `at`, with the reply to the call due there.
pub fn save_original(at: SaveOriginal, reply: &Reply<Vec<u16>>) -> (r: Progress<
    SaveOriginal,
    Result<(), OsError<String>>,
>)
    ensures
        saved_view(r) == at.next(reply@),
{
    if reply.code != ERROR_SUCCESS {
        return Progress::Done(Err(OsError::Os(reply.code)));
    }
    match at {
        SaveOriginal::CreateKey => Progress::Pending(SaveOriginal::SetValue),
        SaveOriginal::SetValue => Progress::Done(Ok(())),
    }
}

/// Where loading the saved ImagePath has got to. The last state holds the size of the value in
/// bytes.
#[derive(Clone, Copy, Debug, PartialEq, Eq, Structural)]
pub enum LoadOriginal {
    OpenKey,
    QuerySize,
    ReadValue(u32),
}

impl LoadOriginal {
    /// The call that is due.
    pub open spec fn due(self) -> Call<Seq<u16>> {
        match self {
            LoadOriginal::OpenKey => Call::OpenKey {
                root: HKEY_LOCAL_MACHINE,
                subkey: wide_of(REG_SUBKEY@),
                access: KEY_READ,
            },
            LoadOriginal::QuerySize => Call::QueryValue {
                name: wide_of(REG_VALUE_ORIGINAL@),
                units: 0,
                byte_len: 0,
            },
            LoadOriginal::ReadValue(bytes) => Call::QueryValue {
                name: wide_of(REG_VALUE_ORIGINAL@),
                units: units_for(bytes) as usize,
                byte_len: byte_len_of(units_for(bytes)),
            },
        }
    }

    /// What the reply to the due call leads to. Without the key or the value, or with an empty
    /// value, nothing is saved; otherwise the text of the value is, without the NULs at its end.
    pub open spec fn next(self, reply: Reply<Seq<u16>>) -> Progress<
        LoadOriginal,
        Result<Option<Seq<char>>, OsError<Seq<char>>>,
    > {
        if reply.code == ERROR_FILE_NOT_FOUND && !(self is ReadValue) {
            Progress::Done(Ok(None))
        } else if reply.code != ERROR_SUCCESS {
            Progress::Done(Err(OsError::Os(reply.code)))
        } else {
            match self {
                LoadOriginal::OpenKey => Progress::Pending(LoadOriginal::QuerySize),
                LoadOriginal::QuerySize => if reply.value == 0 {
                    Progress::Done(Ok(None))
                } else {
                    Progress::Pending(LoadOriginal::ReadValue(reply.value))
                },
                LoadOriginal::ReadValue(_) => {
                    let units = match reply.units {
                        Some(units) => units,
                        None => Seq::empty(),
                    };
                    Progress::Done(Ok(Some(decoded(without_trailing_nuls(units)))))
                },
            }
        }
    }

    /// The call that is due.
    pub fn call(&self) -> (r: Call<Vec<u16>>)
        ensures
            r@ == self.due(),
    {
        match self {
            LoadOriginal::OpenKey => Call::OpenKey {
                root: HKEY_LOCAL_MACHINE,
                subkey: wide(REG_SUBKEY),
                access: KEY_READ,
            },
            LoadOriginal::QuerySize => Call::QueryValue {
                name: wide(REG_VALUE_ORIGINAL),
                units: 0,
                byte_len: 0,
            },
            LoadOriginal::ReadValue(bytes) => {
                // Round up to whole units.
                let units: usize = (*bytes / 2 + *bytes % 2) as usize;
                Call::QueryValue { name: wide(REG_VALUE_ORIGINAL), units, byte_len: byte_len(units) }
            },
        }
    }
}

/// The model of what [`load_original`] gives.
pub open spec fn loaded_view(
    p: Progress<LoadOriginal, Result<Option<String>, OsError<String>>>,
) -> Progress<LoadOriginal, Result<Option<Seq<char>>, OsError<Seq<char>>>> {
    match p {
        Progress::Pending(at) => Progress::Pending(at),
        Progress::Done(Ok(Some(path))) => Progress::Done(Ok(Some(path@))),
        Progress::Done(Ok(None)) => Progress::Done(Ok(None)),
        Progress::Done(Err(e)) => Progress::Done(Err(e@)),
    }
}

/// Takes the loading of the saved ImagePath on from `at`, with the reply to the call due there.
pub fn load_original(at: LoadOriginal, reply: Reply<Vec<u16>>) -> (r: Progress<
    LoadOriginal,
    Result<Option<String>, OsError<String>>,
>)
    ensures
        loaded_view(r) == at.next(reply@),
{
    match at {
        LoadOriginal::OpenKey => {
            if reply.code == ERROR_FILE_NOT_FOUND {
                return Progress::Done(Ok(None));
            }
            if reply.code != ERROR_SUCCESS {
                return Progress::Done(Err(OsError::Os(reply.code)));
            }
            Progress::Pending(LoadOriginal::QuerySize)
        },
        LoadOriginal::QuerySize => {
            if reply.code == ERROR_FILE_NOT_FOUND {
                return Progress::Done(Ok(None));
            }
            if reply.code != ERROR_SUCCESS {
                return Progress::Done(Err(OsError::Os(reply.code)));
            }
            if reply.value == 0 {
                return Progress::Done(Ok(None));
            }
            Progress::Pending(LoadOriginal::ReadValue(reply.value))
        },
        LoadOriginal::ReadValue(_) => {
            if reply.code != ERROR_SUCCESS {
                return Progress::Done(Err(OsError::Os(reply.code)));
            }
            let units: Vec<u16> = match reply.units {
                Some(units) => units,
                None => Vec::new(),
            };
            let trimmed = trim_nuls(units);
            Progress::Done(Ok(Some(decode(trimmed.as_slice()))))
        },
    }
}

/// Where deleting the saved ImagePath has got to.
#[derive(Clone, Copy, Debug, PartialEq, Eq, Structural)]
pub enum DeleteOriginal {
    OpenKey,
    DeleteValue,
}

impl DeleteOriginal {
    /// The call that is due.
    pub open spec fn due(self) -> Call<Seq<u16>> {
        match self {
            DeleteOriginal::OpenKey => Call::OpenKey {
                root: HKEY_LOCAL_MACHINE,
                subkey: wide_of(REG_SUBKEY@),
                access: KEY_WRITE,
            },
            DeleteOriginal::DeleteValue => Call::DeleteValue { name: wide_of(REG_VALUE_ORIGINAL@) },
        }
    }

    /// What the reply to the due call leads to: the value is deleted if the key could be opened,
    /// and nothing is made of a failure.
    pub open spec fn next(self, reply: Reply<Seq<u16>>) -> Progress<DeleteOriginal, ()> {
        if self is OpenKey && reply.code == ERROR_SUCCESS {
            Progress::Pending(DeleteOriginal::DeleteValue)
        } else {
            Progress::Done(())
        }
    }

    /// The call that is due.
    pub fn call(&self) -> (r: Call<Vec<u16>>)
        ensures
            r@ == self.due(),
    {
        match self {
            DeleteOriginal::OpenKey => Call::OpenKey {
                root: HKEY_LOCAL_MACHINE,
                subkey: wide(REG_SUBKEY),
                access: KEY_WRITE,
            },
            DeleteOriginal::DeleteValue => Call::DeleteValue { name: wide(REG_VALUE_ORIGINAL) },
        }
    }
}

/// Takes the deleting of the saved ImagePath on from `at`, with the reply to the call due there.
pub fn delete_original(at: DeleteOriginal, reply: &Reply<Vec<u16>>) -> (r: Progress<
    DeleteOriginal,
    (),
>)
    ensures
        r == at.next(reply@),
{
    match at {
        DeleteOriginal::OpenKey => {
            if reply.code != ERROR_SUCCESS {
                return Progress::Done(());
            }
            Progress::Pending(DeleteOriginal::DeleteValue)
        },
        DeleteOriginal::DeleteValue => Progress::Done(()),
    }
}

/// What was saved is loaded again: if the key is there, the registry says of the value that it
/// has the size that it was written with, and gives back the data that it was written with,
/// padded with NULs or not, then the path that was saved comes out, without any NULs at its end.
/// A path must fit into the size that the registry can be told.
pub proof fn law_load_inverts_save(
    path: Seq<char>,
    opened: Reply<Seq<u16>>,
    sized: Reply<Seq<u16>>,
    read: Reply<Seq<u16>>,
    padding: nat,
)
    requires
        2 * wide_of(path).len() < 0x1_0000_0000,
        opened.code == ERROR_SUCCESS,
        sized.code == ERROR_SUCCESS,
        SaveOriginal::SetValue.due(path) matches Call::SetValue { byte_len, .. } && sized.value
            == byte_len,
        read.code == ERROR_SUCCESS,
        SaveOriginal::SetValue.due(path) matches Call::SetValue { data, .. } && read.units == Some(
            data + Seq::new(padding, |i: int| 0u16),
        ),
    ensures
        LoadOriginal::OpenKey.next(opened) matches Progress::Pending(LoadOriginal::QuerySize),
        LoadOriginal::QuerySize.next(sized) matches Progress::Pending(at) && at
            == LoadOriginal::ReadValue(sized.value),
        LoadOriginal::ReadValue(sized.value).due() matches Call::QueryValue { units, byte_len, .. }
            && units == wide_of(path).len() && byte_len == sized.value,
        LoadOriginal::ReadValue(sized.value).next(read) matches Progress::Done(loaded) && loaded
            == Ok::<_, OsError<Seq<char>>>(Some(without_last_nuls(path))),
        path.len() == 0 || path.last() != '\0' ==> without_last_nuls(path) == path,
{
    law_trim_inverts_wide(path, padding);
}

/// An ImagePath is saved where it is looked for and deleted: under the same key and value.
pub proof fn law_one_place(path: Seq<char>, bytes: u32)
    ensures
        ({
            let created = SaveOriginal::CreateKey.due(path)->CreateKey_subkey;
            let set = SaveOriginal::SetValue.due(path)->SetValue_name;
            &&& LoadOriginal::OpenKey.due()->OpenKey_subkey == created
            &&& LoadOriginal::QuerySize.due()->QueryValue_name == set
            &&& LoadOriginal::ReadValue(bytes).due()->QueryValue_name == set
            &&& DeleteOriginal::OpenKey.due()->OpenKey_subkey == created
            &&& DeleteOriginal::DeleteValue.due()->DeleteValue_name == set
        }),
{
}

/// The original is kept in the registry of the machine, under `SOFTWARE\\netmuxd`, as the text value
/// `OriginalAmdsImagePath`. What is written is its wide string, all of it, if the size can be told.
pub proof fn law_original_is_kept_as_text(path: Seq<char>)
    ensures
        SaveOriginal::CreateKey.due(path) == (Call::CreateKey {
            root: 0x8000_0002,
            subkey: wide_of("SOFTWARE\\netmuxd"@),
            access: 0x2_0006,
        }),
        SaveOriginal::SetValue.due(path) matches Call::SetValue { name, value_type, data, byte_len }
            && name == wide_of("OriginalAmdsImagePath"@) && value_type == 1 && data == wide_of(path)
            && (data.len() < 0x8000_0000 ==> byte_len == 2 * data.len()),
{
}

/// The value is read into a buffer of whole units that holds all of its bytes, and at most one more.
pub proof fn law_buffer_holds_the_value(bytes: u32)
    requires
        bytes < 0xffff_ffff,
    ensures
        LoadOriginal::ReadValue(bytes).due() matches Call::QueryValue { name, units, byte_len } && name
            == wide_of("OriginalAmdsImagePath"@) && byte_len == 2 * units && bytes <= byte_len <= bytes
            + 1,
        LoadOriginal::OpenKey.due() == (Call::OpenKey {
            root: 0x8000_0002,
            subkey: wide_of("SOFTWARE\\netmuxd"@),
            access: 0x2_0019,
        }),
        LoadOriginal::QuerySize.due() == (Call::QueryValue {
            name: wide_of("OriginalAmdsImagePath"@),
            units: 0,
            byte_len: 0,
        }),
        DeleteOriginal::OpenKey.due() == (Call::OpenKey {
            root: 0x8000_0002,
            subkey: wide_of("SOFTWARE\\netmuxd"@),
            access: 0x2_0006,
        }),
        DeleteOriginal::DeleteValue.due() == (Call::DeleteValue {
            name: wide_of("OriginalAmdsImagePath"@),
        }),
{
}

/// What the registry replies is taken at its word. Saving succeeds when both its calls do, and fails
/// with the code of the one that does not. Loading finds nothing saved when the key or the value is
/// missing (2) or the value is empty, and fails with the code of any other call that fails. Deleting
/// ends when the key cannot be opened or the value was to be deleted, whatever came of it.
pub proof fn law_registry_is_taken_at_its_word(
    save: SaveOriginal,
    load: LoadOriginal,
    delete: DeleteOriginal,
    reply: Reply<Seq<u16>>,
)
    ensures
        save.next(reply) matches Progress::Pending(next) ==> save is CreateKey && next is SetValue
            && reply.code == 0,
        save.next(reply) matches Progress::Done(Ok(())) ==> save is SetValue && reply.code == 0,
        save.next(reply) matches Progress::Done(Err(e)) ==> reply.code != 0 && e == OsError::<
            Seq<char>,
        >::Os(reply.code),
        load.next(reply) matches Progress::Pending(next) ==> reply.code == 0 && (load is OpenKey && next
            is QuerySize || load is QuerySize && reply.value != 0 && next == LoadOriginal::ReadValue(
            reply.value,
        )),
        load.next(reply) matches Progress::Done(Ok(None)) ==> !(load is ReadValue) && reply.code == 2
            || load is QuerySize && reply.code == 0 && reply.value == 0,
        load.next(reply) matches Progress::Done(Ok(Some(_))) ==> load is ReadValue && reply.code == 0,
        load.next(reply) matches Progress::Done(Err(e)) ==> reply.code != 0 && e == OsError::<
            Seq<char>,
        >::Os(reply.code) && (reply.code == 2 ==> load is ReadValue),
        delete.next(reply) matches Progress::Pending(next) ==> next is DeleteValue,
        delete.next(reply) is Pending <==> delete is OpenKey && reply.code == 0,
{
}

/// The views of what saving and loading give have the same outcomes.
pub proof fn law_registry_views(
    saved: Progress<SaveOriginal, Result<(), OsError<String>>>,
    loaded: Progress<LoadOriginal, Result<Option<String>, OsError<String>>>,
)
    ensures
        saved matches Progress::Pending(at) ==> (saved_view(saved) matches Progress::Pending(a) && a
            == at),
        saved matches Progress::Done(Ok(())) ==> (saved_view(saved) matches Progress::Done(Ok(()))),
        saved matches Progress::Done(Err(e)) ==> (saved_view(saved) matches Progress::Done(Err(m)) && m
            == e@),
        loaded matches Progress::Pending(at) ==> (loaded_view(loaded) matches Progress::Pending(a) && a
            == at),
        loaded matches Progress::Done(Ok(Some(path))) ==> (loaded_view(loaded) matches Progress::Done(
            Ok(Some(p)),
        ) && p == path@),
        loaded matches Progress::Done(Ok(None)) ==> (loaded_view(loaded) matches Progress::Done(
            Ok(None),
        )),
        loaded matches Progress::Done(Err(e)) ==> (loaded_view(loaded) matches Progress::Done(Err(m))
            && m == e@),
{
}

} // verus!
