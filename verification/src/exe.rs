use vstd::prelude::*;
use vstd::string::*;
use crate::ico_file::{
    icon_dir_entries, icon_dir_entry_data, icon_dir_widths, icon_file_readable, read_icon_dir,
    IconEntryView,
    read_icon_entries,
};

verus! {

/// The entry a program's icon is taken from, by the entries' widths: the first
/// 256 pixels wide; failing that, the last of the widest.
pub open spec fn is_selected_entry(widths: Seq<u32>, i: int) -> bool {
    &&& 0 <= i < widths.len()
    &&& if exists|k: int| 0 <= k < widths.len() && widths[k] == 256 {
        &&& widths[i] == 256
        &&& forall|k: int| 0 <= k < i ==> widths[k] != 256
    } else {
        &&& forall|k: int| 0 <= k < widths.len() ==> widths[k] <= widths[i]
        &&& forall|k: int| i < k < widths.len() ==> widths[k] < widths[i]
    }
}

/// The index of the entry to use, by width: the first with width 256, else the
/// last of the widest, else none where there are no entries.
pub fn select_icon_entry(widths: &Vec<u32>) -> (r: Option<usize>)
    ensures
        match r {
            Some(i) => is_selected_entry(widths@, i as int),
            None => widths@.len() == 0,
        },
{
    let mut i: usize = 0;
    while i < widths.len()
        invariant
            i <= widths@.len(),
            forall|k: int| 0 <= k < i ==> widths@[k] != 256,
        decreases widths@.len() - i,
    {
        if widths[i] == 256 {
            return Some(i);
        }
        i = i + 1;
    }
    if widths.len() == 0 {
        return None;
    }
    let mut best: usize = 0;
    let mut j: usize = 1;
    while j < widths.len()
        invariant
            1 <= j <= widths@.len(),
            best < j,
            forall|k: int| 0 <= k < j ==> widths@[k] <= widths@[best as int],
            forall|k: int| best < k < j ==> widths@[k] < widths@[best as int],
        decreases widths@.len() - j,
    {
        if widths[j] >= widths[best] {
            best = j;
        }
        j = j + 1;
    }
    Some(best)
}

/// Why no icon data could be taken from an ICO file.
#[derive(Debug)]
pub enum ExeIconError {
    /// The ICO file could not be read.
    Read(std::io::Error),
    /// The ICO file holds no entry.
    NoSuitableEntry,
}

impl ExeIconError {
    /// The message that reports this error.
    pub fn message(&self) -> (r: String)
        ensures
            r@ == match self {
                ExeIconError::Read(_) => "Failed to read icon directory"@,
                ExeIconError::NoSuitableEntry => "No suitable icon entry found in .ico file"@,
            },
    {
        match self {
            ExeIconError::Read(_) => String::from_str("Failed to read icon directory"),
            ExeIconError::NoSuitableEntry => String::from_str(
                "No suitable icon entry found in .ico file",
            ),
        }
    }
}

/// The widths of entries.
pub open spec fn entry_widths(es: Seq<IconEntryView>) -> Seq<u32> {
    es.map_values(|e: IconEntryView| e.0)
}

/// The encoded data of the entry of `dir` that a program's icon is taken from.
pub fn icon_data_from_dir(dir: &ico::IconDir) -> (r: Result<Vec<u8>, ExeIconError>)
    ensures
        match r {
            Ok(data) => exists|i: int|
                is_selected_entry(entry_widths(icon_dir_entries(*dir)), i) && data@
                    == icon_dir_entries(*dir)[i].5,
            Err(ExeIconError::NoSuitableEntry) => icon_dir_entries(*dir).len() == 0,
            Err(ExeIconError::Read(_)) => false,
        },
{
    let widths = icon_dir_widths(dir);
    assert(widths@ =~= entry_widths(icon_dir_entries(*dir)));
    match select_icon_entry(&widths) {
        Some(i) => Ok(icon_dir_entry_data(dir, i)),
        None => Err(ExeIconError::NoSuitableEntry),
    }
}

/// The encoded data of the entry of the ICO file `ico_bytes` that a program's icon
/// is taken from.
pub fn exe_icon_data(ico_bytes: &[u8]) -> (r: Result<Vec<u8>, ExeIconError>)
    ensures
        match r {
            Ok(data) => icon_file_readable(ico_bytes@) && exists|i: int|
                is_selected_entry(entry_widths(read_icon_entries(ico_bytes@)), i) && data@
                    == read_icon_entries(ico_bytes@)[i].5,
            Err(ExeIconError::NoSuitableEntry) => icon_file_readable(ico_bytes@)
                && read_icon_entries(ico_bytes@).len() == 0,
            Err(ExeIconError::Read(_)) => !icon_file_readable(ico_bytes@),
        },
{
    match read_icon_dir(ico_bytes) {
        Ok(dir) => icon_data_from_dir(&dir),
        Err(e) => Err(ExeIconError::Read(e)),
    }
}

} // verus!
