//! Keys: how a public key is named, the seed that keys are derived from, and the file it is kept
//! in.

use vstd::prelude::*;

use crate::crypto::{
    bytes_of_hex, drawn, hex_decode, hex_encode, hex_of, lemma_hex_is_digest, lemma_hex_round_trip,
    random_bytes, ENTROPY_UNAVAILABLE,
};
use crate::error::{fault, refusal, Error, Fault};
use crate::text::{
    after, begins, chars_of, debug_text, decimal, decimal_text, digit, is_digest, is_digest_hex,
    is_lower_hex, join2, join4, join5, quoted, starts_with, trim, trimmed,
    trimmed_end,
};

verus! {

/// Whether a text names a public key: `ed25519:` and sixty-four lowercase hexadecimal digits.
pub open spec fn is_key_id(s: Seq<char>) -> bool {
    begins(s, "ed25519:"@) && is_digest(s.skip(8))
}

/// The refusal of a text that names no key.
pub open spec fn bad_key_id(s: Seq<char>) -> Fault {
    fault("key-id-malformed"@, quoted(s))
}

/// The name of a public key.
#[derive(Debug)]
pub struct KeyId {
    text: String,
}

impl View for KeyId {
    type V = Seq<char>;

    closed spec fn view(&self) -> Seq<char> {
        self.text@
    }
}

impl KeyId {
    /// Whatever key name there is names a key.
    #[verifier::type_invariant]
    pub open spec fn names_a_key(self) -> bool {
        is_key_id(self@)
    }

    /// Reads the name of a public key.
    pub fn parse(text: &str) -> (r: Result<KeyId, Error>)
        ensures
            is_key_id(text@) ==> (r matches Ok(key) && key@ == text@),
            !is_key_id(text@) ==> (r matches Err(e) && e@ == bad_key_id(text@)),
    {
        proof {
            reveal_strlit("ed25519:");
        }
        if starts_with(text, "ed25519:") && is_digest_hex(after(text, 8)) {
            Ok(KeyId { text: text.to_owned() })
        } else {
            Err(Error::new("key-id-malformed", debug_text(text)))
        }
    }

    /// The name as a text.
    pub fn as_str(&self) -> (r: &str)
        ensures
            r@ == self@,
            is_key_id(r@),
    {
        proof {
            use_type_invariant(self);
        }
        self.text.as_str()
    }

    /// The same name again.
    pub fn copy(&self) -> (r: KeyId)
        ensures
            r@ == self@,
            is_key_id(r@),
    {
        proof {
            use_type_invariant(self);
        }
        KeyId { text: self.text.clone() }
    }
}

// -- derivation -------------------------------------------------------------------------------

/// The role of a human root's key.
pub const ROLE_HUMAN_ROOT: u32 = 0;

/// The role of an agent's key.
pub const ROLE_AGENT_SUBJECT: u32 = 1;

/// The role of a device's key.
pub const ROLE_DEVICE: u32 = 2;

/// The role of the kernel's own key, which signs its checkpoints and its records.
pub const ROLE_KERNEL_CHECKPOINT: u32 = 3;

/// The role of an organization's policy key.
pub const ROLE_ORG_POLICY: u32 = 4;

/// The first step of every derivation, fixed so that keys can be recovered anywhere.
pub const DERIVATION_PREFIX: u32 = 1054;

/// The path a key of a role and an index is derived at: three hardened steps.
pub open spec fn derivation(role: int, index: int) -> Seq<char> {
    "m/"@ + decimal(DERIVATION_PREFIX as nat) + "'/"@ + decimal(role as nat) + "'/"@ + decimal(
        index as nat,
    ) + "'"@
}

/// The path a key of a role and an index is derived at.
pub fn derivation_path(role: u32, index: u32) -> (r: String)
    ensures
        r@ == derivation(role as int, index as int),
{
    let mut path = join5(
        "m/",
        decimal_text(DERIVATION_PREFIX as u64).as_str(),
        "'/",
        decimal_text(role as u64).as_str(),
        "'/",
    );
    path.push_str(decimal_text(index as u64).as_str());
    path.push_str("'");
    path
}

// -- the seed ---------------------------------------------------------------------------------

/// Thirty-two octets of entropy, from which keys are derived. It prints as a placeholder.
pub struct Seed {
    octets: Vec<u8>,
}

/// Whether a text has an uppercase letter of the alphabet.
pub open spec fn has_uppercase(s: Seq<char>) -> bool {
    exists|i: int| 0 <= i < s.len() && 'A' <= #[trigger] s[i] && s[i] <= 'Z'
}

/// What is wrong with what a seed file holds.
pub open spec fn seed_file_fault(held: Seq<char>, path: Seq<char>) -> Option<Fault> {
    let text = trimmed(held);
    if has_uppercase(text) {
        Some(fault("key-file-malformed"@, "a seed file must hold lowercase hex"@))
    } else if !is_digest(text) {
        Some(fault("key-file-malformed"@, path + " does not hold 64 hex digits"@))
    } else {
        None
    }
}

fn any_uppercase(s: &str) -> (r: bool)
    ensures
        r == has_uppercase(s@),
{
    let chars = chars_of(s);
    let mut i: usize = 0;
    while i < chars.len()
        invariant
            i <= chars@.len(),
            chars@ == s@,
            forall|j: int| 0 <= j < i ==> !('A' <= #[trigger] s@[j] && s@[j] <= 'Z'),
        decreases chars@.len() - i,
    {
        if 'A' <= chars[i] && chars[i] <= 'Z' {
            assert('A' <= s@[i as int] && s@[i as int] <= 'Z');
            return true;
        }
        i += 1;
    }
    false
}

impl Seed {
    /// The octets.
    pub closed spec fn bytes(&self) -> Seq<u8> {
        self.octets@
    }

    /// Thirty-two octets of the system's entropy, or a refusal where it has none to give.
    pub fn generate() -> (r: Result<Seed, Error>)
        ensures
            match r {
                Ok(seed) => seed.bytes().len() == 32,
                Err(e) => e@.code == ENTROPY_UNAVAILABLE@,
            },
    {
        let octets = drawn(random_bytes(32))?;
        Ok(Seed { octets })
    }

    /// Reads a seed from what its file holds: sixty-four lowercase hexadecimal digits, and white
    /// space around them.
    pub fn parse(held: &str, path: &str) -> (r: Result<Seed, Error>)
        ensures
            match seed_file_fault(held@, path@) {
                Some(f) => r matches Err(e) && e@ == f,
                None => r matches Ok(seed) && seed.bytes() == bytes_of_hex(trimmed(held@))
                    && seed.bytes().len() == 32,
            },
    {
        let text = trim(held);
        if any_uppercase(text) {
            return Err(refusal("key-file-malformed", "a seed file must hold lowercase hex"));
        }
        if !is_digest_hex(text) {
            return Err(Error::new("key-file-malformed", join2(path, " does not hold 64 hex digits")));
        }
        proof {
            assert forall|i: int| 0 <= i < text@.len() implies crate::crypto::is_hex(
                #[trigger] text@[i],
            ) by {
                assert(is_lower_hex(text@[i]));
            }
        }
        match hex_decode(text) {
            Ok(octets) => Ok(Seed { octets }),
            Err(e) => {
                assert(false);
                Err(Error::new("key-file-malformed", e))
            },
        }
    }

    /// What the file of this seed holds: its octets in hexadecimal, on one line.
    pub fn file_text(&self) -> (r: String)
        ensures
            r@ == hex_of(self.bytes()) + "\n"@,
    {
        join2(hex_encode(self.octets.as_slice()).as_str(), "\n")
    }

    /// The octets, which deriving a key from a seed needs. Nothing else has a use for them: they are
    /// neither to be shown nor to be sent.
    pub fn material(&self) -> (r: &[u8])
        ensures
            r@ == self.bytes(),
    {
        self.octets.as_slice()
    }

    /// How a seed is shown: never what it holds.
    pub fn shown(&self) -> (r: &'static str)
        ensures
            r@ == "Seed(<redacted>)"@,
    {
        "Seed(<redacted>)"
    }
}

// -- the file ---------------------------------------------------------------------------------

/// A file mode below a thousand, in four octal digits.
pub open spec fn octal4(mode: int) -> Seq<char> {
    seq!['0', digit(mode / 64), digit((mode / 8) % 8), digit(mode % 8)]
}

/// What is wrong with the mode of a key file: anyone but its owner has access to it.
pub open spec fn mode_fault(path: Seq<char>, mode: int) -> Option<Fault> {
    let bits = mode % 512;
    if bits % 64 != 0 {
        Some(
            fault(
                "key-file-permissions"@,
                path + " is mode "@ + octal4(bits) + "; key material must be owner-only (0600)"@,
            ),
        )
    } else {
        None
    }
}

fn octal_digit(n: u32) -> (r: char)
    requires
        n < 8,
    ensures
        r == digit(n as int),
{
    if n == 0 {
        '0'
    } else if n == 1 {
        '1'
    } else if n == 2 {
        '2'
    } else if n == 3 {
        '3'
    } else if n == 4 {
        '4'
    } else if n == 5 {
        '5'
    } else if n == 6 {
        '6'
    } else {
        '7'
    }
}

/// Refuses a key file that anyone but its owner has access to, by its mode.
pub fn require_owner_only(path: &str, mode: u32) -> (r: Result<(), Error>)
    ensures
        crate::error::settles(r, mode_fault(path@, mode as int)),
{
    let bits: u32 = mode % 512;
    if bits % 64 != 0 {
        let mut shown = String::new();
        shown.push('0');
        shown.push(octal_digit(bits / 64));
        shown.push(octal_digit((bits / 8) % 8));
        shown.push(octal_digit(bits % 8));
        assert(shown@ =~= octal4(bits as int));
        return Err(
            Error::new(
                "key-file-permissions",
                join4(
                    path,
                    " is mode ",
                    shown.as_str(),
                    "; key material must be owner-only (0600)",
                ),
            ),
        );
    }
    Ok(())
}

// -- laws -------------------------------------------------------------------------------------

/// A seed that is written is read back: its file, the octets in hexadecimal and a line break, is
/// one that stands, and what is read from it is the octets.
pub proof fn lemma_a_written_seed_is_read_back(octets: Seq<u8>, path: Seq<char>)
    requires
        octets.len() == 32,
    ensures
        seed_file_fault(hex_of(octets) + "\n"@, path) is None,
        bytes_of_hex(trimmed(hex_of(octets) + "\n"@)) == octets,
{
    let digits = hex_of(octets);
    let held = digits + "\n"@;
    reveal_strlit("\n");
    lemma_hex_is_digest(octets);
    lemma_hex_round_trip(octets);
    assert(is_lower_hex(digits[0]) && is_lower_hex(digits[63]));
    assert(held[0] == digits[0] && held.last() == '\n');
    assert(held.drop_last() =~= digits);
    assert(digits.last() == digits[63]);
    reveal_with_fuel(trimmed_end, 3);
    assert(trimmed(held) == digits);
    assert forall|i: int| 0 <= i < digits.len() implies !('A' <= #[trigger] digits[i] && digits[i]
        <= 'Z') by {
        assert(is_lower_hex(digits[i]));
    }
}

/// Every mode that gives access to the group or to others is refused, and every other is not.
pub proof fn lemma_only_owner_modes_pass(path: Seq<char>, owner: int, others: int)
    requires
        0 <= owner < 8,
        0 <= others < 64,
    ensures
        mode_fault(path, owner * 64 + others) is None <==> others == 0,
{
}

/// A key is named by its algorithm and the sixty-four digits of its public half, and by nothing
/// else.
pub proof fn lemma_what_names_a_key(s: Seq<char>, digest: Seq<char>)
    ensures
        is_key_id("ed25519:"@ + digest) <==> is_digest(digest),
        is_key_id(s) ==> exists|d: Seq<char>|
            s == #[trigger] ("ed25519:"@ + d) && d.len() == 64 && is_digest(d),
{
    reveal_strlit("ed25519:");
    assert("ed25519:"@.len() == 8);
    let whole = "ed25519:"@ + digest;
    assert(whole.take(8) =~= "ed25519:"@);
    assert(whole.skip(8) =~= digest);
    if is_key_id(s) {
        assert(s =~= "ed25519:"@ + s.skip(8));
    }
}

/// A seed is read from a file exactly where, without the space around it, that holds a digest.
pub proof fn lemma_what_a_seed_file_holds(held: Seq<char>, path: Seq<char>)
    ensures
        seed_file_fault(held, path) is None <==> is_digest(trimmed(held)),
{
    let text = trimmed(held);
    if is_digest(text) && has_uppercase(text) {
        let i = choose|i: int| 0 <= i < text.len() && 'A' <= #[trigger] text[i] && text[i] <= 'Z';
        assert(crate::text::is_lower_hex(text[i]));
    }
}

/// Keys are derived under one purpose, by their role and their place among those of the role.
pub proof fn lemma_how_keys_are_derived(role: nat, index: nat)
    ensures
        derivation(role as int, index as int) == "m/"@ + decimal(1054) + "'/"@ + decimal(role)
            + "'/"@ + decimal(index) + "'"@,
        ROLE_HUMAN_ROOT == 0,
        ROLE_AGENT_SUBJECT == 1,
        ROLE_DEVICE == 2,
        ROLE_KERNEL_CHECKPOINT == 3,
        ROLE_ORG_POLICY == 4,
{
}

} // verus!
