//! The settings that are kept between runs.

use vstd::prelude::*;

verus! {

/// The settings.
#[derive(Debug)]
pub struct Config {
    /// The code of the language of the texts, such as `en`.
    pub language: String,
}

impl Default for Config {
    fn default() -> (config: Config)
        ensures
            config.language@ == "en"@,
    {
        Config { language: "en".to_owned() }
    }
}

impl Config {
    /// Puts English in the place of a language code that is empty.
    ///
    /// Returns whether the settings changed.
    pub fn repair(&mut self) -> (changed: bool)
        ensures
            changed == (old(self).language@.len() == 0),
            changed ==> final(self).language@ == "en"@,
            !changed ==> *final(self) == *old(self),
    {
        if self.language.as_str().unicode_len() == 0 {
            self.language = "en".to_owned();
            true
        } else {
            false
        }
    }
}

} // verus!
