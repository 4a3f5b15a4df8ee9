//! Cloud storage provider kinds and their connection conventions.

use vstd::prelude::*;

verus! {

/// Supported cloud storage provider types.
#[derive(Clone, Copy, PartialEq, Eq, Structural, Debug)]
pub enum ProviderType {
    /// Cloudflare R2 - S3-compatible object storage
    CloudflareR2,
    /// Amazon Web Services S3
    AwsS3,
}

impl ProviderType {
    /// Whether this provider requires path-style URLs: R2 does, AWS S3 uses
    /// virtual-hosted style by default.
    pub fn force_path_style(&self) -> (r: bool)
        ensures
            r == (*self == ProviderType::CloudflareR2),
    {
        match self {
            ProviderType::CloudflareR2 => true,
            ProviderType::AwsS3 => false,
        }
    }

    /// The default region for this provider.
    pub fn default_region(&self) -> (r: &'static str)
        ensures
            *self == ProviderType::CloudflareR2 ==> r@ == "auto"@,
            *self == ProviderType::AwsS3 ==> r@ == "us-east-1"@,
    {
        match self {
            ProviderType::CloudflareR2 => "auto",
            ProviderType::AwsS3 => "us-east-1",
        }
    }

    /// Display name for the provider.
    pub fn display_name(&self) -> (r: &'static str)
        ensures
            *self == ProviderType::CloudflareR2 ==> r@ == "Cloudflare R2"@,
            *self == ProviderType::AwsS3 ==> r@ == "Amazon S3"@,
    {
        match self {
            ProviderType::CloudflareR2 => "Cloudflare R2",
            ProviderType::AwsS3 => "Amazon S3",
        }
    }
}

impl Default for ProviderType {
    /// R2 is the default provider.
    fn default() -> (r: Self)
        ensures
            r == ProviderType::CloudflareR2,
    {
        ProviderType::CloudflareR2
    }
}

/// R2 location hints for bucket creation.
#[derive(Clone, Copy, PartialEq, Eq, Structural, Debug)]
pub enum R2LocationHint {
    /// Western North America
    Wnam,
    /// Eastern North America
    Enam,
    /// Western Europe
    Weur,
    /// Eastern Europe
    Eeur,
    /// Asia-Pacific
    Apac,
}

impl R2LocationHint {
    /// The wire token for the hint.
    pub fn as_str(&self) -> (r: &'static str)
        ensures
            *self == R2LocationHint::Wnam ==> r@ == "wnam"@,
            *self == R2LocationHint::Enam ==> r@ == "enam"@,
            *self == R2LocationHint::Weur ==> r@ == "weur"@,
            *self == R2LocationHint::Eeur ==> r@ == "eeur"@,
            *self == R2LocationHint::Apac ==> r@ == "apac"@,
    {
        match self {
            R2LocationHint::Wnam => "wnam",
            R2LocationHint::Enam => "enam",
            R2LocationHint::Weur => "weur",
            R2LocationHint::Eeur => "eeur",
            R2LocationHint::Apac => "apac",
        }
    }

    /// Display name for the hint.
    pub fn display_name(&self) -> (r: &'static str)
        ensures
            *self == R2LocationHint::Wnam ==> r@ == "Western North America"@,
            *self == R2LocationHint::Enam ==> r@ == "Eastern North America"@,
            *self == R2LocationHint::Weur ==> r@ == "Western Europe"@,
            *self == R2LocationHint::Eeur ==> r@ == "Eastern Europe"@,
            *self == R2LocationHint::Apac ==> r@ == "Asia-Pacific"@,
    {
        match self {
            R2LocationHint::Wnam => "Western North America",
            R2LocationHint::Enam => "Eastern North America",
            R2LocationHint::Weur => "Western Europe",
            R2LocationHint::Eeur => "Eastern Europe",
            R2LocationHint::Apac => "Asia-Pacific",
        }
    }
}

} // verus!
