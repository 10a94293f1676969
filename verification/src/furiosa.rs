//! The Furiosa NPU reader: its collection methods and the fallback from the
//! primary method to the secondary one.
use vstd::prelude::*;

verus! {

/// How Furiosa metrics are collected.
#[derive(Debug, Clone, Copy, PartialEq, Eq, Structural)]
pub enum CollectionMethod {
    /// Run the `furiosactl` tool.
    Furiosactl,
    /// Read the device files.
    DeviceFile,
}

/// Configuration of the Furiosa reader.
#[derive(Debug, Clone, Copy, PartialEq, Eq, Structural)]
pub struct FuriosaConfig {
    /// The method tried first.
    pub primary_method: CollectionMethod,
    /// The method tried when the first one finds nothing.
    pub fallback_method: Option<CollectionMethod>,
}

impl Default for FuriosaConfig {
    fn default() -> (r: Self)
        ensures
            r.primary_method == CollectionMethod::Furiosactl,
            r.fallback_method == Some(CollectionMethod::DeviceFile),
    {
        FuriosaConfig {
            primary_method: CollectionMethod::Furiosactl,
            fallback_method: Some(CollectionMethod::DeviceFile),
        }
    }
}

/// Reads Furiosa NPUs.
#[derive(Debug, Clone, Copy, PartialEq, Eq, Structural)]
pub struct FuriosaReader {
    config: FuriosaConfig,
}

impl FuriosaReader {
    /// The configuration of the reader.
    pub closed spec fn config_spec(&self) -> FuriosaConfig {
        self.config
    }

    /// A reader with the default configuration.
    pub fn new() -> (r: Self)
        ensures
            r.config_spec().primary_method == CollectionMethod::Furiosactl,
            r.config_spec().fallback_method == Some(CollectionMethod::DeviceFile),
    {
        Self::with_config(FuriosaConfig::default())
    }

    /// A reader with the given configuration.
    pub fn with_config(config: FuriosaConfig) -> (r: Self)
        ensures
            r.config_spec() == config,
    {
        FuriosaReader { config }
    }

    /// The method to try first.
    pub fn primary_method(&self) -> (r: CollectionMethod)
        ensures
            r == self.config_spec().primary_method,
    {
        self.config.primary_method
    }

    /// The method to try after the first one: the fallback, when the first
    /// found nothing and there is one.
    pub fn next_method(&self, primary_found_any: bool) -> (r: Option<CollectionMethod>)
        ensures
            primary_found_any ==> r is None,
            !primary_found_any ==> r == self.config_spec().fallback_method,
    {
        if primary_found_any {
            None
        } else {
            self.config.fallback_method
        }
    }
}

} // verus!
