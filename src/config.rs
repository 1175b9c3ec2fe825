use vstd::prelude::*;
use crate::text::{opt_view, copy_string, copy_opt_string};

verus! {

/// Facts about the running build, shown to the user.
pub struct StaticData {
    pub app_version: String,
    pub git_commit: Option<String>,
    pub is_prod: bool,
}

/// The default of the startup scan setting when a saved file lacks it.
pub fn default_as_true() -> (r: bool)
    ensures
        r,
{
    true
}

/// User settings.
pub struct AppConfig {
    /// Where the settings are saved.
    pub save_path: String,
    pub addons_folder: Option<String>,
    pub steam_apikey: Option<String>,
    pub startup_scan: bool,
    pub startup_telemetry: bool,
}

/// What is found on disk at a configured addons folder.
#[derive(Clone, Copy, Debug, PartialEq, Eq, Structural)]
pub enum FolderCheck {
    /// Nothing readable is there.
    Missing,
    /// Something other than a directory is there.
    NotDirectory,
    Directory,
}

/// Why new settings were refused.
#[derive(Clone, Copy, Debug, PartialEq, Eq, Structural)]
pub enum ConfigError {
    /// A non-empty Steam API key must be 32 characters long.
    ApiKeyLength,
    /// The addons folder must exist and be readable.
    FolderMissing,
    /// The addons folder must be a directory.
    FolderNotDirectory,
}

impl ConfigError {
    /// The message shown to the user.
    pub fn message(&self) -> (r: String)
        ensures
            *self == ConfigError::ApiKeyLength ==> r@ == "Steam API Key must be 32 characters long"@,
            *self == ConfigError::FolderMissing ==> r@ == "Addons folder must exist and be readable"@,
            *self == ConfigError::FolderNotDirectory ==> r@ == "Addons folder must be a directory"@,
    {
        match self {
            ConfigError::ApiKeyLength => "Steam API Key must be 32 characters long".to_string(),
            ConfigError::FolderMissing => "Addons folder must exist and be readable".to_string(),
            ConfigError::FolderNotDirectory => "Addons folder must be a directory".to_string(),
        }
    }
}

/// A Steam API key is either empty or 32 characters long.
pub open spec fn key_ok(key: Option<Seq<char>>) -> bool {
    match key {
        Some(k) => k.len() == 0 || k.len() == 32,
        None => true,
    }
}

/// The verdict on new settings, given what is at their addons folder.
pub open spec fn validation(c: AppConfig, folder: FolderCheck) -> Result<(), ConfigError> {
    if !key_ok(opt_view(c.steam_apikey)) {
        Err(ConfigError::ApiKeyLength)
    } else if c.addons_folder is Some && folder == FolderCheck::Missing {
        Err(ConfigError::FolderMissing)
    } else if c.addons_folder is Some && folder == FolderCheck::NotDirectory {
        Err(ConfigError::FolderNotDirectory)
    } else {
        Ok(())
    }
}

impl AppConfig {
    /// Settings before the user changed any.
    pub fn new(save_path: String) -> (r: AppConfig)
        ensures
            r.save_path@ == save_path@,
            r.addons_folder is None,
            r.steam_apikey is None,
            !r.startup_scan,
            !r.startup_telemetry,
    {
        AppConfig {
            save_path,
            addons_folder: None,
            steam_apikey: None,
            startup_scan: false,
            startup_telemetry: false,
        }
    }

    /// Checks new settings; `folder` says what is at their addons folder.
    pub fn validate(&self, new_config: &AppConfig, folder: FolderCheck) -> (r: Result<(), ConfigError>)
        ensures
            r == validation(*new_config, folder),
    {
        if let Some(key) = &new_config.steam_apikey {
            let n = key.as_str().unicode_len();
            if n > 0 && n != 32 {
                return Err(ConfigError::ApiKeyLength);
            }
        }
        if new_config.addons_folder.is_some() {
            match folder {
                FolderCheck::Missing => return Err(ConfigError::FolderMissing),
                FolderCheck::NotDirectory => return Err(ConfigError::FolderNotDirectory),
                FolderCheck::Directory => {},
            }
        }
        Ok(())
    }

    /// Takes the new settings once they pass validation; otherwise keeps
    /// the current ones.
    pub fn replace(&mut self, new_config: AppConfig, folder: FolderCheck) -> (r: Result<(), ConfigError>)
        ensures
            r == validation(new_config, folder),
            r is Err ==> *final(self) == *old(self),
            r is Ok ==> {
                &&& final(self).save_path == old(self).save_path
                &&& opt_view(final(self).steam_apikey) == opt_view(new_config.steam_apikey)
                &&& opt_view(final(self).addons_folder) == opt_view(new_config.addons_folder)
                &&& final(self).startup_scan == new_config.startup_scan
                &&& final(self).startup_telemetry == new_config.startup_telemetry
            },
    {
        let checked = self.validate(&new_config, folder);
        if checked.is_err() {
            return checked;
        }
        self.steam_apikey = new_config.steam_apikey;
        self.addons_folder = new_config.addons_folder;
        self.startup_scan = new_config.startup_scan;
        self.startup_telemetry = new_config.startup_telemetry;
        Ok(())
    }

    /// A copy of the settings.
    pub fn duplicate(&self) -> (r: AppConfig)
        ensures
            r.save_path@ == self.save_path@,
            opt_view(r.addons_folder) == opt_view(self.addons_folder),
            opt_view(r.steam_apikey) == opt_view(self.steam_apikey),
            r.startup_scan == self.startup_scan,
            r.startup_telemetry == self.startup_telemetry,
    {
        AppConfig {
            save_path: copy_string(&self.save_path),
            addons_folder: copy_opt_string(&self.addons_folder),
            steam_apikey: copy_opt_string(&self.steam_apikey),
            startup_scan: self.startup_scan,
            startup_telemetry: self.startup_telemetry,
        }
    }
}

/// The page the interface opens on.
pub struct SetRoute {
    pub name: Option<String>,
}

/// What the interface receives when it starts.
pub struct InitData {
    pub initial_route: SetRoute,
    pub data: StaticData,
    pub config: AppConfig,
    pub addon_folder_suggestion: Option<String>,
}

impl InitData {
    /// Start data: the interface opens on setup until an addons folder is
    /// configured, and on the addon list after.
    pub fn new(config: AppConfig, data: StaticData, addon_folder_suggestion: Option<String>) -> (r: InitData)
        ensures
            config.addons_folder is Some ==> opt_view(r.initial_route.name) == Some("addons-manual"@),
            config.addons_folder is None ==> opt_view(r.initial_route.name) == Some("setup"@),
            r.config == config,
            r.data == data,
            r.addon_folder_suggestion == addon_folder_suggestion,
    {
        let route = if config.addons_folder.is_some() {
            "addons-manual".to_string()
        } else {
            "setup".to_string()
        };
        InitData {
            initial_route: SetRoute { name: Some(route) },
            data,
            config,
            addon_folder_suggestion,
        }
    }
}

} // verus!
