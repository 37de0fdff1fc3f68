//! Configuration values and the providers that load them.
use vstd::prelude::*;

verus! {

/// Why a configuration could not be loaded.
#[derive(Debug)]
pub enum ConfigProviderError {
    Load { message: String },
}

impl ConfigProviderError {
    /// A load error with `msg` as its message.
    pub fn load_error(msg: &str) -> (e: Self)
        ensures
            e matches ConfigProviderError::Load { message } && message@ == msg@,
    {
        Self::Load { message: msg.to_owned() }
    }

    /// The text displayed for the error: `Could not load config file. <message>`.
    pub fn to_text(&self) -> (r: String)
        ensures
            r@ == (match self {
                ConfigProviderError::Load { message } => "Could not load config file. "@ + message@,
            }),
    {
        match self {
            ConfigProviderError::Load { message } => {
                let mut r = "Could not load config file. ".to_owned();
                r.push_str(message.as_str());
                r
            },
        }
    }
}

/// Loads a configuration value; implemented for each source of
/// configuration.
pub trait ConfigProvider<C> {
    /// Whether `r` is what `load` may answer; of a provider that says
    /// nothing more, any answer.
    open spec fn loads(&self, r: Result<C, ConfigProviderError>) -> bool {
        true
    }

    fn load(&self) -> (r: Result<C, ConfigProviderError>)
        ensures
            self.loads(r),
    ;
}

/// A loaded configuration value.
#[derive(Debug, Default)]
pub struct Config<C> {
    config: C,
}

impl<C> Config<C> {
    /// The value held.
    pub closed spec fn value(&self) -> C {
        self.config
    }

    /// A configuration from what a provider loaded: its value, or `Err(())`
    /// when loading failed.
    pub fn from_loaded(loaded: Result<C, ConfigProviderError>) -> (r: Result<Self, ()>)
        ensures
            match loaded {
                Ok(c) => r matches Ok(cfg) && cfg.value() == c,
                Err(_) => r is Err,
            },
    {
        match loaded {
            Ok(config) => Ok(Config { config }),
            Err(_) => Err(()),
        }
    }

    /// Loads the configuration from `provider`: its value, or `Err(())`
    /// where loading failed.
    pub fn new<P: ConfigProvider<C>>(provider: P) -> (r: Result<Self, ()>)
        ensures
            match r {
                Ok(cfg) => provider.loads(Ok(cfg.value())),
                Err(_) => exists|e: ConfigProviderError| provider.loads(Err(e)),
            },
    {
        let loaded = provider.load();
        proof {
            if loaded is Err {
                assert(provider.loads(Err(loaded->Err_0)));
            }
        }
        Self::from_loaded(loaded)
    }

    /// The value held.
    pub fn get(&self) -> (r: &C)
        ensures
            *r == self.value(),
    {
        &self.config
    }

    /// Mutable access to the value held.
    pub fn get_mut(&mut self) -> (r: &mut C)
        ensures
            *r == old(self).value(),
            final(self).value() == *final(r),
    {
        &mut self.config
    }
}

/// Provides the default value.
pub struct DefaultConfigProvider;

impl DefaultConfigProvider {
    /// The default value of `C`, which always loads.
    pub fn load_default<C: Default>(&self) -> (r: Result<C, ConfigProviderError>)
        ensures
            r matches Ok(c) && call_ensures(C::default, (), c),
    {
        Ok(C::default())
    }
}

impl<C: Default> ConfigProvider<C> for DefaultConfigProvider {
    open spec fn loads(&self, r: Result<C, ConfigProviderError>) -> bool {
        r matches Ok(c) && call_ensures(C::default, (), c)
    }

    fn load(&self) -> (r: Result<C, ConfigProviderError>) {
        self.load_default()
    }
}

/// Provides a value given in code.
pub struct ProgrammaticConfigProvider<C> {
    pub config: C,
}

impl<C: Clone> ConfigProvider<C> for ProgrammaticConfigProvider<C> {
    open spec fn loads(&self, r: Result<C, ConfigProviderError>) -> bool {
        r matches Ok(c) && cloned(self.config, c)
    }

    fn load(&self) -> (r: Result<C, ConfigProviderError>) {
        Ok(self.config.clone())
    }
}

} // verus!
