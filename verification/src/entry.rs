//! The package entry: a package's known state, as the registry and the
//! install pipeline carry it, together with the small per-entry messages of
//! the surrounding list widgetry that still carry logic (toggling, selection).

use vstd::prelude::*;

verus! {

/// Version metadata published at a package's remote source, as far as the
/// reconciler reads it.
pub struct RemoteVersionInfo {
    /// The remotely published version string.
    pub version: String,
}

impl Clone for RemoteVersionInfo {
    fn clone(&self) -> (r: Self)
        ensures
            r@ == self@,
    {
        RemoteVersionInfo { version: self.version.clone() }
    }
}

impl View for RemoteVersionInfo {
    type V = Seq<char>;

    open spec fn view(&self) -> Seq<char> {
        self.version@
    }
}

/// A package's known state. Created by parsing a manifest during a directory
/// scan or the post-install re-parse; `enabled` and `remote_version` are never
/// read from the manifest but computed by the caller.
pub struct PackageEntry {
    /// Stable identity; the registry's unique key.
    pub id: String,
    /// Display name.
    pub name: String,
    /// Author; empty when the manifest omits it.
    pub author: String,
    /// The installed (local) version string.
    pub local_version: String,
    /// The game version the package declares compatibility with.
    pub game_version: String,
    /// Free-form description; empty when the manifest omits it.
    pub description: String,
    /// Whether the package is in the enabled set.
    pub enabled: bool,
    /// Filesystem location of the package's root directory.
    pub path: String,
    /// Populated by version reconciliation, never by parsing.
    pub remote_version: Option<RemoteVersionInfo>,
    /// Where the reconciler may look for a newer version, when declared.
    pub version_checker_url: Option<String>,
    /// Whether the entry is the one currently selected in the list.
    pub highlighted: bool,
}

/// The mathematical content of a `PackageEntry`.
pub struct EntryView {
    pub id: Seq<char>,
    pub name: Seq<char>,
    pub author: Seq<char>,
    pub local_version: Seq<char>,
    pub game_version: Seq<char>,
    pub description: Seq<char>,
    pub enabled: bool,
    pub path: Seq<char>,
    pub remote_version: Option<Seq<char>>,
    pub version_checker_url: Option<Seq<char>>,
    pub highlighted: bool,
}

impl View for PackageEntry {
    type V = EntryView;

    open spec fn view(&self) -> EntryView {
        EntryView {
            id: self.id@,
            name: self.name@,
            author: self.author@,
            local_version: self.local_version@,
            game_version: self.game_version@,
            description: self.description@,
            enabled: self.enabled,
            path: self.path@,
            remote_version: match self.remote_version {
                Some(r) => Some(r@),
                None => None,
            },
            version_checker_url: match self.version_checker_url {
                Some(u) => Some(u@),
                None => None,
            },
            highlighted: self.highlighted,
        }
    }
}

impl EntryView {
    /// The fields a manifest determines, i.e. everything except the state the
    /// caller computes (`enabled`, `remote_version`, `highlighted`) and the
    /// location (`path`). Two entries parsed from the same manifest text agree
    /// on exactly these.
    pub open spec fn manifest_content(self) -> (
        Seq<char>,
        Seq<char>,
        Seq<char>,
        Seq<char>,
        Seq<char>,
        Seq<char>,
        Option<Seq<char>>,
    ) {
        (
            self.id,
            self.name,
            self.author,
            self.local_version,
            self.game_version,
            self.description,
            self.version_checker_url,
        )
    }
}

impl Clone for PackageEntry {
    fn clone(&self) -> (r: Self)
        ensures
            r@ == self@,
    {
        PackageEntry {
            id: self.id.clone(),
            name: self.name.clone(),
            author: self.author.clone(),
            local_version: self.local_version.clone(),
            game_version: self.game_version.clone(),
            description: self.description.clone(),
            enabled: self.enabled,
            path: self.path.clone(),
            remote_version: match &self.remote_version {
                Some(r) => Some(r.clone()),
                None => None,
            },
            version_checker_url: match &self.version_checker_url {
                Some(u) => Some(u.clone()),
                None => None,
            },
            highlighted: self.highlighted,
        }
    }
}

/// Messages a single list row produces.
pub enum ModEntryMessage {
    /// The enabled checkbox was toggled to the given state.
    ToggleEnabled(bool),
    /// The row was selected.
    EntryHighlighted,
    /// Another row took the selection.
    EntryCleared,
}

impl PackageEntry {
    /// Applies a row message: toggling writes `enabled`, selection messages
    /// write `highlighted`; nothing else moves.
    pub fn update(&mut self, message: ModEntryMessage)
        ensures
            final(self)@ == match message {
                ModEntryMessage::ToggleEnabled(on) => EntryView { enabled: on, ..old(self)@ },
                ModEntryMessage::EntryHighlighted => EntryView {
                    highlighted: true,
                    ..old(self)@
                },
                ModEntryMessage::EntryCleared => EntryView {
                    highlighted: false,
                    ..old(self)@
                },
            },
    {
        match message {
            ModEntryMessage::ToggleEnabled(on) => {
                self.enabled = on;
            },
            ModEntryMessage::EntryHighlighted => {
                self.highlighted = true;
            },
            ModEntryMessage::EntryCleared => {
                self.highlighted = false;
            },
        }
    }
}

/// Messages for the description panel.
pub enum ModDescriptionMessage {
    /// A different entry was selected.
    ModChanged(PackageEntry),
}

/// The description panel's state: the entry whose description is shown.
pub struct ModDescription {
    pub mod_entry: Option<PackageEntry>,
}

impl ModDescription {
    /// Starts with nothing selected.
    pub fn new() -> (r: Self)
        ensures
            r.mod_entry is None,
    {
        ModDescription { mod_entry: None }
    }

    /// Applies a panel message: the shown entry is replaced.
    pub fn update(&mut self, message: ModDescriptionMessage)
        ensures
            match message {
                ModDescriptionMessage::ModChanged(e) => final(self).mod_entry == Some(e),
            },
    {
        match message {
            ModDescriptionMessage::ModChanged(entry) => {
                self.mod_entry = Some(entry);
            },
        }
    }

    /// The text the panel shows: the selected entry's description, or a
    /// placeholder when nothing is selected.
    pub fn shown_text(&self) -> (r: String)
        ensures
            match self.mod_entry {
                Some(e) => r@ == e.description@,
                None => r@ == "No mod selected."@,
            },
    {
        match &self.mod_entry {
            Some(entry) => entry.description.clone(),
            None => "No mod selected.".to_owned(),
        }
    }
}

/// The ways an install can be started from the list's install picker.
pub enum InstallOptions {
    /// Pick one or more archive files.
    FromArchive,
    /// Pick a single folder.
    FromFolder,
    /// The picker's resting label; starts nothing.
    Default,
}

impl InstallOptions {
    /// The selectable options, in the order the picker offers them.
    pub fn show() -> (r: Vec<InstallOptions>)
        ensures
            r@ == seq![InstallOptions::FromArchive, InstallOptions::FromFolder],
    {
        let mut v: Vec<InstallOptions> = Vec::new();
        v.push(InstallOptions::FromArchive);
        v.push(InstallOptions::FromFolder);
        proof {
            assert(v@ =~= seq![InstallOptions::FromArchive, InstallOptions::FromFolder]);
        }
        v
    }

    /// The option's display label.
    pub fn label(&self) -> (r: String)
        ensures
            r@ == match self {
                InstallOptions::Default => "Install Mod"@,
                InstallOptions::FromArchive => "From Archive"@,
                InstallOptions::FromFolder => "From Folder"@,
            },
    {
        match self {
            InstallOptions::Default => "Install Mod".to_owned(),
            InstallOptions::FromArchive => "From Archive".to_owned(),
            InstallOptions::FromFolder => "From Folder".to_owned(),
        }
    }
}

} // verus!
