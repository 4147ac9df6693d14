//! Versioned forms of the Fourier-domain key material.
//!
//! Bootstrap keys are cached in the frequency domain.  The arithmetic on
//! those caches lives outside this crate; here their samples travel as
//! opaque bit patterns, wrapped in the explicit closed set of declared
//! versions that backward-compatible decoding dispatches over.

use crate::Error;
use vstd::prelude::*;

verus! {

/// Number of coefficients of one polynomial.
#[derive(Clone, Copy, Debug, PartialEq, Eq, Structural)]
pub struct PolynomialSize(pub usize);

/// One frequency-domain sample, carried as the bit patterns of its two
/// components; never interpreted here.
#[derive(Clone, Copy, Debug, PartialEq, Eq, Structural)]
pub struct FourierSample {
    pub re_bits: u64,
    pub im_bits: u64,
}

/// A list of polynomials in the frequency domain.
#[derive(Clone, Debug, PartialEq)]
pub struct FourierPolynomialList {
    pub data: Vec<FourierSample>,
    pub polynomial_size: PolynomialSize,
}

impl FourierPolynomialList {
    /// The samples fill whole polynomials.
    pub open spec fn wf(self) -> bool {
        self.polynomial_size.0 >= 1 && (self.data@.len() as int) % (self.polynomial_size.0 as int) == 0
    }
}

/// The declared versions of a polynomial list, borrowed for encoding.
pub enum FourierPolynomialListVersioned<'vers> {
    V0(&'vers FourierPolynomialList),
}

impl<'vers> From<&'vers FourierPolynomialList> for FourierPolynomialListVersioned<'vers> {
    fn from(value: &'vers FourierPolynomialList) -> (r: Self) {
        FourierPolynomialListVersioned::V0(value)
    }
}

impl<'vers> vstd::std_specs::convert::FromSpecImpl<&'vers FourierPolynomialList>
    for FourierPolynomialListVersioned<'vers> {
    open spec fn obeys_from_spec() -> bool {
        true
    }

    open spec fn from_spec(t: &'vers FourierPolynomialList) -> Self {
        FourierPolynomialListVersioned::V0(t)
    }
}

/// The declared versions of a polynomial list.
pub enum FourierPolynomialListVersionedOwned {
    V0(FourierPolynomialList),
}

impl From<FourierPolynomialList> for FourierPolynomialListVersionedOwned {
    fn from(value: FourierPolynomialList) -> (r: Self) {
        FourierPolynomialListVersionedOwned::V0(value)
    }
}

impl vstd::std_specs::convert::FromSpecImpl<FourierPolynomialList>
    for FourierPolynomialListVersionedOwned {
    open spec fn obeys_from_spec() -> bool {
        true
    }

    open spec fn from_spec(t: FourierPolynomialList) -> Self {
        FourierPolynomialListVersionedOwned::V0(t)
    }
}

impl From<FourierPolynomialListVersionedOwned> for FourierPolynomialList {
    fn from(value: FourierPolynomialListVersionedOwned) -> (r: Self) {
        match value {
            FourierPolynomialListVersionedOwned::V0(v0) => v0,
        }
    }
}

impl vstd::std_specs::convert::FromSpecImpl<FourierPolynomialListVersionedOwned>
    for FourierPolynomialList {
    open spec fn obeys_from_spec() -> bool {
        true
    }

    open spec fn from_spec(t: FourierPolynomialListVersionedOwned) -> Self {
        match t {
            FourierPolynomialListVersionedOwned::V0(v0) => v0,
        }
    }
}

/// The frequency-domain cache of one bootstrap key, with the dimensions a
/// consumer reads it under.
#[derive(Clone, Debug, PartialEq)]
pub struct FourierLweBootstrapKeyVersionOwned {
    pub fourier: FourierPolynomialList,
    pub input_lwe_dimension: usize,
    pub glwe_size: usize,
    pub decomposition_level_count: usize,
}

/// A frequency-domain bootstrap key whose samples fill whole polynomials.
#[derive(Clone, Debug, PartialEq)]
pub struct FourierLweBootstrapKey {
    pub fourier: FourierPolynomialList,
    pub input_lwe_dimension: usize,
    pub glwe_size: usize,
    pub decomposition_level_count: usize,
}

impl FourierLweBootstrapKey {
    pub open spec fn wf(self) -> bool {
        self.fourier.wf()
    }

    /// Converts any declared version into the current shape, rejecting a
    /// cache whose samples do not fill whole polynomials.
    pub fn try_from_versioned(value: FourierLweBootstrapKeyVersionedOwned) -> (r: Result<
        Self,
        Error,
    >)
        ensures
            match r {
                Ok(v) => v.wf() && (value matches FourierLweBootstrapKeyVersionedOwned::V0(v0)
                    && v == (FourierLweBootstrapKey {
                    fourier: v0.fourier,
                    input_lwe_dimension: v0.input_lwe_dimension,
                    glwe_size: v0.glwe_size,
                    decomposition_level_count: v0.decomposition_level_count,
                })),
                Err(e) => e == Error::UnversionizeFailure && (value
                    matches FourierLweBootstrapKeyVersionedOwned::V0(v0) && !(FourierPolynomialList {
                    data: v0.fourier.data,
                    polynomial_size: v0.fourier.polynomial_size,
                }).wf()),
            },
    {
        match value {
            FourierLweBootstrapKeyVersionedOwned::V0(v0) => {
                if v0.fourier.polynomial_size.0 >= 1 && v0.fourier.data.len()
                    % v0.fourier.polynomial_size.0 == 0 {
                    Ok(FourierLweBootstrapKey {
                        fourier: v0.fourier,
                        input_lwe_dimension: v0.input_lwe_dimension,
                        glwe_size: v0.glwe_size,
                        decomposition_level_count: v0.decomposition_level_count,
                    })
                } else {
                    Err(Error::UnversionizeFailure)
                }
            },
        }
    }
}

/// The declared versions of a frequency-domain bootstrap key, borrowed
/// for encoding.
pub enum FourierLweBootstrapKeyVersioned<'vers> {
    V0(&'vers FourierLweBootstrapKey),
}

impl<'vers> From<&'vers FourierLweBootstrapKey> for FourierLweBootstrapKeyVersioned<'vers> {
    fn from(value: &'vers FourierLweBootstrapKey) -> (r: Self) {
        FourierLweBootstrapKeyVersioned::V0(value)
    }
}

impl<'vers> vstd::std_specs::convert::FromSpecImpl<&'vers FourierLweBootstrapKey>
    for FourierLweBootstrapKeyVersioned<'vers> {
    open spec fn obeys_from_spec() -> bool {
        true
    }

    open spec fn from_spec(t: &'vers FourierLweBootstrapKey) -> Self {
        FourierLweBootstrapKeyVersioned::V0(t)
    }
}

/// The declared versions of an owned frequency-domain bootstrap key.
pub enum FourierLweBootstrapKeyVersionedOwned {
    V0(FourierLweBootstrapKeyVersionOwned),
}

impl From<FourierLweBootstrapKey> for FourierLweBootstrapKeyVersionedOwned {
    fn from(value: FourierLweBootstrapKey) -> (r: Self) {
        FourierLweBootstrapKeyVersionedOwned::V0(
            FourierLweBootstrapKeyVersionOwned {
                fourier: value.fourier,
                input_lwe_dimension: value.input_lwe_dimension,
                glwe_size: value.glwe_size,
                decomposition_level_count: value.decomposition_level_count,
            },
        )
    }
}

impl vstd::std_specs::convert::FromSpecImpl<FourierLweBootstrapKey>
    for FourierLweBootstrapKeyVersionedOwned {
    open spec fn obeys_from_spec() -> bool {
        true
    }

    open spec fn from_spec(t: FourierLweBootstrapKey) -> Self {
        FourierLweBootstrapKeyVersionedOwned::V0(
            FourierLweBootstrapKeyVersionOwned {
                fourier: t.fourier,
                input_lwe_dimension: t.input_lwe_dimension,
                glwe_size: t.glwe_size,
                decomposition_level_count: t.decomposition_level_count,
            },
        )
    }
}

/// The frequency-domain cache of one GGSW ciphertext.
#[derive(Clone, Debug, PartialEq)]
pub struct FourierGgswCiphertextVersionOwned {
    pub fourier: FourierPolynomialList,
    pub glwe_size: usize,
    pub decomposition_level_count: usize,
}

/// A frequency-domain GGSW ciphertext whose samples fill whole
/// polynomials.
#[derive(Clone, Debug, PartialEq)]
pub struct FourierGgswCiphertext {
    pub fourier: FourierPolynomialList,
    pub glwe_size: usize,
    pub decomposition_level_count: usize,
}

impl FourierGgswCiphertext {
    pub open spec fn wf(self) -> bool {
        self.fourier.wf()
    }

    /// Converts any declared version into the current shape, rejecting a
    /// cache whose samples do not fill whole polynomials.
    pub fn try_from_versioned(value: FourierGgswCiphertextVersionedOwned) -> (r: Result<
        Self,
        Error,
    >)
        ensures
            match r {
                Ok(v) => v.wf() && (value matches FourierGgswCiphertextVersionedOwned::V0(v0) && v
                    == (FourierGgswCiphertext {
                    fourier: v0.fourier,
                    glwe_size: v0.glwe_size,
                    decomposition_level_count: v0.decomposition_level_count,
                })),
                Err(e) => e == Error::UnversionizeFailure && (value
                    matches FourierGgswCiphertextVersionedOwned::V0(v0) && !(FourierPolynomialList {
                    data: v0.fourier.data,
                    polynomial_size: v0.fourier.polynomial_size,
                }).wf()),
            },
    {
        match value {
            FourierGgswCiphertextVersionedOwned::V0(v0) => {
                if v0.fourier.polynomial_size.0 >= 1 && v0.fourier.data.len()
                    % v0.fourier.polynomial_size.0 == 0 {
                    Ok(FourierGgswCiphertext {
                        fourier: v0.fourier,
                        glwe_size: v0.glwe_size,
                        decomposition_level_count: v0.decomposition_level_count,
                    })
                } else {
                    Err(Error::UnversionizeFailure)
                }
            },
        }
    }
}

/// The declared versions of a frequency-domain GGSW ciphertext, borrowed
/// for encoding.
pub enum FourierGgswCiphertextVersioned<'vers> {
    V0(&'vers FourierGgswCiphertext),
}

impl<'vers> From<&'vers FourierGgswCiphertext> for FourierGgswCiphertextVersioned<'vers> {
    fn from(value: &'vers FourierGgswCiphertext) -> (r: Self) {
        FourierGgswCiphertextVersioned::V0(value)
    }
}

impl<'vers> vstd::std_specs::convert::FromSpecImpl<&'vers FourierGgswCiphertext>
    for FourierGgswCiphertextVersioned<'vers> {
    open spec fn obeys_from_spec() -> bool {
        true
    }

    open spec fn from_spec(t: &'vers FourierGgswCiphertext) -> Self {
        FourierGgswCiphertextVersioned::V0(t)
    }
}

/// The declared versions of an owned frequency-domain GGSW ciphertext.
pub enum FourierGgswCiphertextVersionedOwned {
    V0(FourierGgswCiphertextVersionOwned),
}

impl From<FourierGgswCiphertext> for FourierGgswCiphertextVersionedOwned {
    fn from(value: FourierGgswCiphertext) -> (r: Self) {
        FourierGgswCiphertextVersionedOwned::V0(
            FourierGgswCiphertextVersionOwned {
                fourier: value.fourier,
                glwe_size: value.glwe_size,
                decomposition_level_count: value.decomposition_level_count,
            },
        )
    }
}

impl vstd::std_specs::convert::FromSpecImpl<FourierGgswCiphertext>
    for FourierGgswCiphertextVersionedOwned {
    open spec fn obeys_from_spec() -> bool {
        true
    }

    open spec fn from_spec(t: FourierGgswCiphertext) -> Self {
        FourierGgswCiphertextVersionedOwned::V0(
            FourierGgswCiphertextVersionOwned {
                fourier: t.fourier,
                glwe_size: t.glwe_size,
                decomposition_level_count: t.decomposition_level_count,
            },
        )
    }
}

} // verus!
