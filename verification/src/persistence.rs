//! Where devices and scenes are kept between runs, and what loading and
//! saving them comes to.
use vstd::prelude::*;
use crate::media::cache::{is_path_separator, join_spec, main_separator, path_join_with};
use crate::state::{RendererDevice, Scene};
use crate::text::append;

verus! {

/// Path of a data file: in `data/` next to the program when its directory
/// is known, else in `data/` of the working directory.
pub open spec fn data_file_path_spec(exe_dir: Option<Seq<char>>, filename: Seq<char>, sep: char) -> Seq<char> {
    match exe_dir {
        Some(d) => join_spec(join_spec(d, "data"@, sep), filename, sep),
        None => join_spec("data"@, filename, sep),
    }
}

/// The data file path on some platform's separator.
pub open spec fn is_data_file_path(r: Seq<char>, exe_dir: Option<Seq<char>>, filename: Seq<char>) -> bool {
    exists|sep: char| is_path_separator(sep) && r == #[trigger] data_file_path_spec(exe_dir, filename, sep)
}

/// The path of a data file, given the directory of the program, where the
/// main path separator is `sep`.
pub fn get_data_file_path_with(exe_dir: Option<&str>, filename: &str, sep: char) -> (r: String)
    ensures
        r@ == data_file_path_spec(crate::text::opt_str_view(exe_dir), filename@, sep),
{
    match exe_dir {
        Some(d) => {
            let data = path_join_with(d, "data", sep);
            path_join_with(data.as_str(), filename, sep)
        },
        None => path_join_with("data", filename, sep),
    }
}

/// The path of a data file, given the directory of the program.
pub fn get_data_file_path(exe_dir: Option<&str>, filename: &str) -> (r: String)
    ensures
        is_data_file_path(r@, crate::text::opt_str_view(exe_dir), filename@),
{
    let sep = main_separator();
    let r = get_data_file_path_with(exe_dir, filename, sep);
    assert(r@ == data_file_path_spec(crate::text::opt_str_view(exe_dir), filename@, sep));
    r
}

/// The file that holds the known devices.
pub fn get_persistence_path(exe_dir: Option<&str>) -> (r: String)
    ensures
        is_data_file_path(r@, crate::text::opt_str_view(exe_dir), "devices.json"@),
{
    get_data_file_path(exe_dir, "devices.json")
}

/// The file that holds the scenes.
pub fn get_scenes_persistence_path(exe_dir: Option<&str>) -> (r: String)
    ensures
        is_data_file_path(r@, crate::text::opt_str_view(exe_dir), "scenes.json"@),
{
    get_data_file_path(exe_dir, "scenes.json")
}

/// What reading a JSON list from a data file gave.
pub enum LoadOutcome<T> {
    /// The file does not exist.
    Missing,
    /// The file could not be read; the reason.
    ReadFailed(String),
    /// The file is not a JSON list of the items; the reason.
    ParseFailed(String),
    /// The items in the file.
    Parsed(Vec<T>),
}

pub open spec fn loaded_items<T>(outcome: LoadOutcome<T>) -> Seq<T> {
    match outcome {
        LoadOutcome::Parsed(v) => v@,
        _ => Seq::empty(),
    }
}

/// The items of a data file; none when it is missing, unreadable or
/// corrupted.
pub fn load_json_list<T>(outcome: LoadOutcome<T>) -> (r: Vec<T>)
    ensures
        r@ == loaded_items(outcome),
{
    match outcome {
        LoadOutcome::Parsed(v) => v,
        _ => Vec::new(),
    }
}

/// The saved devices (none when the file is missing or corrupted).
pub fn load_devices(outcome: LoadOutcome<RendererDevice>) -> (r: Vec<RendererDevice>)
    ensures
        r@ == loaded_items(outcome),
{
    load_json_list(outcome)
}

/// The saved scenes (none when the file is missing or corrupted).
pub fn load_scenes(outcome: LoadOutcome<Scene>) -> (r: Vec<Scene>)
    ensures
        r@ == loaded_items(outcome),
{
    load_json_list(outcome)
}

/// Why writing a data file failed.
pub enum SaveFailure {
    CreateDir(String),
    Serialize(String),
    Write(String),
}

pub open spec fn save_failure_spec(f: SaveFailure, label: Seq<char>) -> Seq<char> {
    match f {
        SaveFailure::CreateDir(d) => "Failed to create data directory: "@ + d@,
        SaveFailure::Serialize(d) => "Failed to serialize "@ + label + ": "@ + d@,
        SaveFailure::Write(d) => "Failed to write "@ + label + ": "@ + d@,
    }
}

/// The message of a failure to write the data file named `label`.
pub fn save_failure_message(f: &SaveFailure, label: &str) -> (r: String)
    ensures
        r@ == save_failure_spec(*f, label@),
{
    match f {
        SaveFailure::CreateDir(d) => {
            let mut m = "Failed to create data directory: ".to_string();
            append(&mut m, d.as_str());
            m
        },
        SaveFailure::Serialize(d) => {
            let mut m = "Failed to serialize ".to_string();
            append(&mut m, label);
            append(&mut m, ": ");
            append(&mut m, d.as_str());
            m
        },
        SaveFailure::Write(d) => {
            let mut m = "Failed to write ".to_string();
            append(&mut m, label);
            append(&mut m, ": ");
            append(&mut m, d.as_str());
            m
        },
    }
}

/// The result of saving the data file named `label`.
pub fn save_json_list(outcome: Result<(), SaveFailure>, label: &str) -> (r: Result<(), String>)
    ensures
        match outcome {
            Ok(()) => r is Ok,
            Err(f) => r matches Err(m) && m@ == save_failure_spec(f, label@),
        },
{
    match outcome {
        Ok(()) => Ok(()),
        Err(f) => Err(save_failure_message(&f, label)),
    }
}

/// The result of saving the devices.
pub fn save_devices(outcome: Result<(), SaveFailure>) -> (r: Result<(), String>)
    ensures
        match outcome {
            Ok(()) => r is Ok,
            Err(f) => r matches Err(m) && m@ == save_failure_spec(f, "devices.json"@),
        },
{
    save_json_list(outcome, "devices.json")
}

/// The result of saving the scenes.
pub fn save_scenes(outcome: Result<(), SaveFailure>) -> (r: Result<(), String>)
    ensures
        match outcome {
            Ok(()) => r is Ok,
            Err(f) => r matches Err(m) && m@ == save_failure_spec(f, "scenes.json"@),
        },
{
    save_json_list(outcome, "scenes.json")
}

} // verus!
