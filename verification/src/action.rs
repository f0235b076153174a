//! The actions that menu items name, as a closed set with one variant for
//! every identifier that is not known.

use vstd::prelude::*;
use crate::text::same_text;

verus! {

/// An action of the shell.
#[derive(Debug)]
pub enum Action {
    OpenFolder,
    NewFile,
    OpenFile,
    SaveFile,
    SaveAs,
    SaveAll,
    CloseFile,
    PrintFile,
    RenameFile,
    RefreshFile,
    ImportFile,
    ExportFile,
    FileProperty,
    Undo,
    Redo,
    Cut,
    Copy,
    Paste,
    Delete,
    GenerateUuid,
    GotoLine,
    Find,
    NewQuery,
    ConnectDb,
    NewWindow,
    About,
    Exit,
    ToggleDarkMode,
    /// An identifier that names none of the above, kept as it was given.
    Unrecognized(String),
}

/// An action as a mathematical value.
pub enum ActionKind {
    OpenFolder,
    NewFile,
    OpenFile,
    SaveFile,
    SaveAs,
    SaveAll,
    CloseFile,
    PrintFile,
    RenameFile,
    RefreshFile,
    ImportFile,
    ExportFile,
    FileProperty,
    Undo,
    Redo,
    Cut,
    Copy,
    Paste,
    Delete,
    GenerateUuid,
    GotoLine,
    Find,
    NewQuery,
    ConnectDb,
    NewWindow,
    About,
    Exit,
    ToggleDarkMode,
    Unrecognized(Seq<char>),
}

impl View for Action {
    type V = ActionKind;

    open spec fn view(&self) -> ActionKind {
        match self {
            Action::OpenFolder => ActionKind::OpenFolder,
            Action::NewFile => ActionKind::NewFile,
            Action::OpenFile => ActionKind::OpenFile,
            Action::SaveFile => ActionKind::SaveFile,
            Action::SaveAs => ActionKind::SaveAs,
            Action::SaveAll => ActionKind::SaveAll,
            Action::CloseFile => ActionKind::CloseFile,
            Action::PrintFile => ActionKind::PrintFile,
            Action::RenameFile => ActionKind::RenameFile,
            Action::RefreshFile => ActionKind::RefreshFile,
            Action::ImportFile => ActionKind::ImportFile,
            Action::ExportFile => ActionKind::ExportFile,
            Action::FileProperty => ActionKind::FileProperty,
            Action::Undo => ActionKind::Undo,
            Action::Redo => ActionKind::Redo,
            Action::Cut => ActionKind::Cut,
            Action::Copy => ActionKind::Copy,
            Action::Paste => ActionKind::Paste,
            Action::Delete => ActionKind::Delete,
            Action::GenerateUuid => ActionKind::GenerateUuid,
            Action::GotoLine => ActionKind::GotoLine,
            Action::Find => ActionKind::Find,
            Action::NewQuery => ActionKind::NewQuery,
            Action::ConnectDb => ActionKind::ConnectDb,
            Action::NewWindow => ActionKind::NewWindow,
            Action::About => ActionKind::About,
            Action::Exit => ActionKind::Exit,
            Action::ToggleDarkMode => ActionKind::ToggleDarkMode,
            Action::Unrecognized(id) => ActionKind::Unrecognized(id@),
        }
    }
}

/// The action that an identifier names.
pub open spec fn action_named(id: Seq<char>) -> ActionKind {
    if id == "open_folder"@ {
        ActionKind::OpenFolder
    } else if id == "new_file"@ {
        ActionKind::NewFile
    } else if id == "open_file"@ {
        ActionKind::OpenFile
    } else if id == "save_file"@ {
        ActionKind::SaveFile
    } else if id == "save_as"@ {
        ActionKind::SaveAs
    } else if id == "save_all"@ {
        ActionKind::SaveAll
    } else if id == "close_file"@ {
        ActionKind::CloseFile
    } else if id == "print_file"@ {
        ActionKind::PrintFile
    } else if id == "rename_file"@ {
        ActionKind::RenameFile
    } else if id == "refresh_file"@ {
        ActionKind::RefreshFile
    } else if id == "import_file"@ {
        ActionKind::ImportFile
    } else if id == "export_file"@ {
        ActionKind::ExportFile
    } else if id == "file_property"@ {
        ActionKind::FileProperty
    } else if id == "undo"@ {
        ActionKind::Undo
    } else if id == "redo"@ {
        ActionKind::Redo
    } else if id == "cut"@ {
        ActionKind::Cut
    } else if id == "copy"@ {
        ActionKind::Copy
    } else if id == "paste"@ {
        ActionKind::Paste
    } else if id == "delete"@ {
        ActionKind::Delete
    } else if id == "generate_uuid"@ {
        ActionKind::GenerateUuid
    } else if id == "goto_line"@ {
        ActionKind::GotoLine
    } else if id == "find"@ {
        ActionKind::Find
    } else if id == "new_query"@ {
        ActionKind::NewQuery
    } else if id == "connect_db"@ {
        ActionKind::ConnectDb
    } else if id == "new_window"@ {
        ActionKind::NewWindow
    } else if id == "about"@ {
        ActionKind::About
    } else if id == "exit"@ {
        ActionKind::Exit
    } else if id == "toggle_dark_mode"@ {
        ActionKind::ToggleDarkMode
    } else {
        ActionKind::Unrecognized(id)
    }
}

impl Action {
    /// The action that `id` names. Every text is accepted: one that names no
    /// known action comes back as `Unrecognized`.
    pub fn parse(id: &str) -> (r: Action)
        ensures
            r@ == action_named(id@),
    {
        if same_text(id, "open_folder") {
            Action::OpenFolder
        } else if same_text(id, "new_file") {
            Action::NewFile
        } else if same_text(id, "open_file") {
            Action::OpenFile
        } else if same_text(id, "save_file") {
            Action::SaveFile
        } else if same_text(id, "save_as") {
            Action::SaveAs
        } else if same_text(id, "save_all") {
            Action::SaveAll
        } else if same_text(id, "close_file") {
            Action::CloseFile
        } else if same_text(id, "print_file") {
            Action::PrintFile
        } else if same_text(id, "rename_file") {
            Action::RenameFile
        } else if same_text(id, "refresh_file") {
            Action::RefreshFile
        } else if same_text(id, "import_file") {
            Action::ImportFile
        } else if same_text(id, "export_file") {
            Action::ExportFile
        } else if same_text(id, "file_property") {
            Action::FileProperty
        } else if same_text(id, "undo") {
            Action::Undo
        } else if same_text(id, "redo") {
            Action::Redo
        } else if same_text(id, "cut") {
            Action::Cut
        } else if same_text(id, "copy") {
            Action::Copy
        } else if same_text(id, "paste") {
            Action::Paste
        } else if same_text(id, "delete") {
            Action::Delete
        } else if same_text(id, "generate_uuid") {
            Action::GenerateUuid
        } else if same_text(id, "goto_line") {
            Action::GotoLine
        } else if same_text(id, "find") {
            Action::Find
        } else if same_text(id, "new_query") {
            Action::NewQuery
        } else if same_text(id, "connect_db") {
            Action::ConnectDb
        } else if same_text(id, "new_window") {
            Action::NewWindow
        } else if same_text(id, "about") {
            Action::About
        } else if same_text(id, "exit") {
            Action::Exit
        } else if same_text(id, "toggle_dark_mode") {
            Action::ToggleDarkMode
        } else {
            Action::Unrecognized(id.to_owned())
        }
    }
}

} // verus!
