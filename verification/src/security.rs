//! Security levels of proofs.

use vstd::prelude::*;
use crate::text::{append_decimal, decimal};

verus! {

/// The security level that a proof is made for.
#[derive(Clone, Copy, Debug, PartialEq, Eq, Structural)]
pub enum SecurityModel {
    Security80,
    Security100,
}

/// A number of bits that is no security level.
#[derive(Clone, Copy, Debug, PartialEq, Eq, Structural)]
pub struct UnsupportedSecurity {
    pub bits: u32,
}

impl SecurityModel {
    /// The security level in bits.
    pub open spec fn bits(self) -> nat {
        match self {
            SecurityModel::Security80 => 80,
            SecurityModel::Security100 => 100,
        }
    }

    /// The name of a security level.
    pub open spec fn name_text(self) -> Seq<char> {
        match self {
            SecurityModel::Security80 => "Security80"@,
            SecurityModel::Security100 => "Security100"@,
        }
    }

    /// The name of a security level.
    pub fn name(&self) -> (name: String)
        ensures
            name@ == self.name_text(),
    {
        match self {
            SecurityModel::Security80 => "Security80".to_owned(),
            SecurityModel::Security100 => "Security100".to_owned(),
        }
    }
}

impl UnsupportedSecurity {
    /// What is said of a number of bits that is no security level.
    pub open spec fn text_spec(self) -> Seq<char> {
        "unsupported --security "@ + decimal(self.bits as nat) + " (expected 80 or 100)"@
    }

    /// What is said of a number of bits that is no security level.
    pub fn text(&self) -> (text: String)
        ensures
            text@ == self.text_spec(),
    {
        let mut out = "unsupported --security ".to_owned();
        append_decimal(&mut out, self.bits as u64);
        out.append(" (expected 80 or 100)");
        out
    }
}

/// The security level of a number of bits.
pub fn security_model(bits: u32) -> (r: Result<SecurityModel, UnsupportedSecurity>)
    ensures
        match r {
            Ok(model) => model.bits() == bits,
            Err(e) => bits != 80 && bits != 100 && e.bits == bits,
        },
{
    match bits {
        80 => Ok(SecurityModel::Security80),
        100 => Ok(SecurityModel::Security100),
        other => Err(UnsupportedSecurity { bits: other }),
    }
}

/// The byte that stands for a security level in an envelope.
pub fn security_wire_bits(security: SecurityModel) -> (bits: u8)
    ensures
        bits == security.bits(),
{
    match security {
        SecurityModel::Security80 => 80,
        SecurityModel::Security100 => 100,
    }
}

/// Security levels differ in their bits.
pub proof fn law_bits_tell_security_apart(a: SecurityModel, b: SecurityModel)
    requires
        a.bits() == b.bits(),
    ensures
        a == b,
{
}

/// A security level is 80 or 100 bits, under the name that says so.
pub proof fn law_security_levels(model: SecurityModel, unsupported: UnsupportedSecurity)
    ensures
        model == SecurityModel::Security80 ==> model.bits() == 80 && model.name_text()
            == "Security80"@,
        model == SecurityModel::Security100 ==> model.bits() == 100 && model.name_text()
            == "Security100"@,
        unsupported.text_spec() == "unsupported --security "@ + decimal(unsupported.bits as nat)
            + " (expected 80 or 100)"@,
{
}

} // verus!
