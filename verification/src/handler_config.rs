//! The settings of a handler: identity, whether it runs, its timeout and
//! retry policy, and its own configuration value.
use vstd::prelude::*;

verus! {

broadcast use vstd::string::group_string_axioms;

/// Loads a configuration value; implemented for each source of
/// configuration.
pub trait ConfigProvider<C> {
    /// Whether `r` is what `load` may answer; of a provider that says
    /// nothing more, any answer.
    open spec fn loads(&self, r: Result<C, ()>) -> bool {
        true
    }

    fn load(&self) -> (r: Result<C, ()>)
        ensures
            self.loads(r),
    ;
}

/// A loaded configuration value.
pub struct Config<C> {
    config: C,
}

impl<C: Default> Default for Config<C> {
    /// The default value of `C`.
    fn default() -> Self {
        Config { config: C::default() }
    }
}

impl<C> Config<C> {
    /// The value held.
    pub closed spec fn value(&self) -> C {
        self.config
    }

    /// A configuration from what a provider loaded.
    pub fn from_loaded(loaded: Result<C, ()>) -> (r: Result<Self, ()>)
        ensures
            match loaded {
                Ok(c) => r matches Ok(cfg) && cfg.value() == c,
                Err(_) => r is Err,
            },
    {
        match loaded {
            Ok(config) => Ok(Config { config }),
            Err(_) => Err(()),
        }
    }

    /// Loads the configuration from `provider`: its value, or `Err(())`
    /// where loading failed.
    pub fn new<P: ConfigProvider<C>>(provider: P) -> (r: Result<Self, ()>)
        ensures
            match r {
                Ok(cfg) => provider.loads(Ok(cfg.value())),
                Err(_) => exists|e: ()| provider.loads(Err(e)),
            },
    {
        let loaded = provider.load();
        proof {
            if loaded is Err {
                assert(provider.loads(Err(loaded->Err_0)));
            }
        }
        Self::from_loaded(loaded)
    }

    /// The value held.
    pub fn get(&self) -> (r: &C)
        ensures
            *r == self.value(),
    {
        &self.config
    }

    /// Mutable access to the value held.
    pub fn get_mut(&mut self) -> (r: &mut C)
        ensures
            *r == old(self).value(),
            final(self).value() == *final(r),
    {
        &mut self.config
    }
}

/// Provides the default value.
pub struct DefaultConfigProvider;

impl DefaultConfigProvider {
    /// The default value of `C`, which always loads.
    pub fn load_default<C: Default>(&self) -> (r: Result<C, ()>)
        ensures
            r matches Ok(c) && call_ensures(C::default, (), c),
    {
        Ok(C::default())
    }
}

impl<C: Default> ConfigProvider<C> for DefaultConfigProvider {
    open spec fn loads(&self, r: Result<C, ()>) -> bool {
        r matches Ok(c) && call_ensures(C::default, (), c)
    }

    fn load(&self) -> (r: Result<C, ()>) {
        self.load_default()
    }
}

/// Where a handler's configuration comes from.
#[derive(Debug, Clone, Copy, PartialEq, Eq, Structural)]
pub enum ProviderType {
    File,
    Default,
}

/// A handler's settings, by view.
pub ghost struct SettingsView {
    pub id: Seq<char>,
    pub enabled: bool,
    pub timeout: Option<u64>,
    pub retry_count: Option<u32>,
    pub retry_delay: Option<u64>,
}

/// The settings a handler has unless told otherwise: named `unknown`,
/// enabled, with a timeout of 30000 and no retries.
pub open spec fn default_settings() -> SettingsView {
    SettingsView { id: "unknown"@, enabled: true, timeout: Some(30000), retry_count: None, retry_delay: None }
}

/// The settings of a handler.
pub struct HandlerConfig<C> {
    id: String,
    enabled: bool,
    timeout: Option<u64>,
    retry_count: Option<u32>,
    retry_delay: Option<u64>,
    config: Config<C>,
}

impl<C: Default> Default for HandlerConfig<C> {
    fn default() -> (r: Self)
        ensures
            r.settings() == default_settings(),
    {
        HandlerConfig {
            id: "unknown".to_owned(),
            enabled: true,
            timeout: Some(30000),
            retry_count: None,
            retry_delay: None,
            config: Config::default(),
        }
    }
}

impl<C> HandlerConfig<C> {
    /// The settings, without the configuration value.
    pub closed spec fn settings(&self) -> SettingsView {
        SettingsView {
            id: self.id@,
            enabled: self.enabled,
            timeout: self.timeout,
            retry_count: self.retry_count,
            retry_delay: self.retry_delay,
        }
    }

    /// The configuration value.
    pub closed spec fn config_spec(&self) -> Config<C> {
        self.config
    }

    /// Settings named `id` with `config`, the rest as by default.
    pub fn new(id: String, config: Config<C>) -> (r: Self)
        ensures
            r.settings() == (SettingsView { id: id@, ..default_settings() }),
            r.config_spec() == config,
    {
        HandlerConfig {
            id,
            enabled: true,
            timeout: Some(30000),
            retry_count: None,
            retry_delay: None,
            config,
        }
    }

    pub fn id(&self) -> (r: &String)
        ensures
            r@ == self.settings().id,
    {
        &self.id
    }

    pub fn enabled(&self) -> (r: bool)
        ensures
            r == self.settings().enabled,
    {
        self.enabled
    }

    pub fn timeout(&self) -> (r: Option<u64>)
        ensures
            r == self.settings().timeout,
    {
        self.timeout
    }

    pub fn retry_count(&self) -> (r: Option<u32>)
        ensures
            r == self.settings().retry_count,
    {
        self.retry_count
    }

    pub fn retry_delay(&self) -> (r: Option<u64>)
        ensures
            r == self.settings().retry_delay,
    {
        self.retry_delay
    }

    pub fn config(&self) -> (r: &Config<C>)
        ensures
            *r == self.config_spec(),
    {
        &self.config
    }

    pub fn set_config(&mut self, config: Config<C>)
        ensures
            final(self).settings() == old(self).settings(),
            final(self).config_spec() == config,
    {
        self.config = config;
    }

    pub fn set_enabled(&mut self, enabled: bool)
        ensures
            final(self).settings() == (SettingsView { enabled, ..old(self).settings() }),
            final(self).config_spec() == old(self).config_spec(),
    {
        self.enabled = enabled;
    }

    pub fn set_timeout(&mut self, timeout: Option<u64>)
        ensures
            final(self).settings() == (SettingsView { timeout, ..old(self).settings() }),
            final(self).config_spec() == old(self).config_spec(),
    {
        self.timeout = timeout;
    }

    pub fn set_retry_count(&mut self, retry_count: Option<u32>)
        ensures
            final(self).settings() == (SettingsView { retry_count, ..old(self).settings() }),
            final(self).config_spec() == old(self).config_spec(),
    {
        self.retry_count = retry_count;
    }

    pub fn set_retry_delay(&mut self, retry_delay: Option<u64>)
        ensures
            final(self).settings() == (SettingsView { retry_delay, ..old(self).settings() }),
            final(self).config_spec() == old(self).config_spec(),
    {
        self.retry_delay = retry_delay;
    }

    pub fn set_id(&mut self, id: String)
        ensures
            final(self).settings() == (SettingsView { id: id@, ..old(self).settings() }),
            final(self).config_spec() == old(self).config_spec(),
    {
        self.id = id;
    }
}

impl<C: Default> HandlerConfig<C> {
    /// A builder that starts from the default settings.
    pub fn builder() -> (b: HandlerConfigBuilder<C>)
        ensures
            b.current().settings() == default_settings(),
    {
        HandlerConfigBuilder::new()
    }
}

/// Builds handler settings field by field.
pub struct HandlerConfigBuilder<C> {
    config: HandlerConfig<C>,
}

impl<C> HandlerConfigBuilder<C> {
    /// The settings built so far.
    pub closed spec fn current(&self) -> HandlerConfig<C> {
        self.config
    }

    pub fn id(&mut self, id: String) -> (r: &mut Self)
        ensures
            r.current().settings() == (SettingsView { id: id@, ..old(self).current().settings() }),
            r.current().config_spec() == old(self).current().config_spec(),
            *final(self) == *final(r),
    {
        self.config.id = id;
        self
    }

    pub fn enabled(&mut self, enabled: bool) -> (r: &mut Self)
        ensures
            r.current().settings() == (SettingsView { enabled, ..old(self).current().settings() }),
            r.current().config_spec() == old(self).current().config_spec(),
            *final(self) == *final(r),
    {
        self.config.enabled = enabled;
        self
    }

    pub fn timeout(&mut self, timeout: Option<u64>) -> (r: &mut Self)
        ensures
            r.current().settings() == (SettingsView { timeout, ..old(self).current().settings() }),
            r.current().config_spec() == old(self).current().config_spec(),
            *final(self) == *final(r),
    {
        self.config.timeout = timeout;
        self
    }

    pub fn retry_count(&mut self, retry_count: Option<u32>) -> (r: &mut Self)
        ensures
            r.current().settings() == (SettingsView { retry_count, ..old(self).current().settings() }),
            r.current().config_spec() == old(self).current().config_spec(),
            *final(self) == *final(r),
    {
        self.config.retry_count = retry_count;
        self
    }

    pub fn retry_delay(&mut self, retry_delay: Option<u64>) -> (r: &mut Self)
        ensures
            r.current().settings() == (SettingsView { retry_delay, ..old(self).current().settings() }),
            r.current().config_spec() == old(self).current().config_spec(),
            *final(self) == *final(r),
    {
        self.config.retry_delay = retry_delay;
        self
    }

    pub fn config(&mut self, config: Config<C>) -> (r: &mut Self)
        ensures
            r.current().settings() == old(self).current().settings(),
            r.current().config_spec() == config,
            *final(self) == *final(r),
    {
        self.config.config = config;
        self
    }

    /// The settings built.
    pub fn build(self) -> (r: HandlerConfig<C>)
        ensures
            r == self.current(),
    {
        self.config
    }
}

impl<C: Default> HandlerConfigBuilder<C> {
    /// A builder that starts from the default settings.
    pub fn new() -> (b: Self)
        ensures
            b.current().settings() == default_settings(),
    {
        HandlerConfigBuilder { config: HandlerConfig::default() }
    }
}

} // verus!
