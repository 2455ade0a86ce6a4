use vstd::prelude::*;
use vstd::string::StringExecFns;
use crate::config::Config;
use crate::encode::append_u64_dec;
use crate::numbers::dec_digits;
use crate::strings::chars_to_string;

verus! {

/// One supported protocol extension as the landing page shows it.
#[derive(Debug, Clone)]
pub struct SupportedNip {
    pub nip: String,
    pub url: String,
}

impl SupportedNip {
    /// The page's writing of the extension number.
    pub fn display_string(&self) -> (r: String)
        ensures
            r@ == "NIP-"@ + self.nip@,
    {
        String::from_str("NIP-").concat(self.nip.as_str())
    }
}

/// The page's label for an extension number: two digits at least, zero
/// padded.
pub open spec fn spec_nip_label(n: u16) -> Seq<char> {
    (if n < 10 {
        seq!['0']
    } else {
        Seq::<char>::empty()
    }) + dec_digits(n as nat)
}

/// Writes the zero-padded decimal label for an extension number.
pub fn format_nip_label(n: u16) -> (r: String)
    ensures
        r@ == spec_nip_label(n),
{
    let mut out: Vec<char> = Vec::new();
    if n < 10 {
        out.push('0');
    }
    append_u64_dec(&mut out, n as u64);
    proof {
        assert(out@ =~= spec_nip_label(n));
    }
    chars_to_string(&out)
}

/// Everything the landing page shows: the relay's name, description,
/// endpoint, and supported extensions. Rendering is presentation work and
/// stays outside this crate.
#[derive(Debug, Clone)]
pub struct IndexTemplate {
    pub relay_name: String,
    pub relay_description: String,
    pub relay_url: String,
    pub supported_nips: Vec<SupportedNip>,
}

/// Builds the landing page's data from the configuration; each extension
/// number gets its zero-padded label, each URL is carried as it stands.
pub fn index_template(config: &Config) -> (r: IndexTemplate)
    ensures
        r.relay_name@ == config.name@,
        r.relay_description@ == config.description@,
        r.relay_url@ == "https://relay.bolt/ws"@,
        r.supported_nips@.len() == config.supported_nips@.len(),
        forall|i: int| 0 <= i < config.supported_nips@.len() ==> r.supported_nips@[i].nip@
            == spec_nip_label((#[trigger] config.supported_nips@[i]).0)
            && r.supported_nips@[i].url@ == config.supported_nips@[i].1@,
{
    let mut nips: Vec<SupportedNip> = Vec::new();
    let mut i: usize = 0;
    while i < config.supported_nips.len()
        invariant
            0 <= i <= config.supported_nips@.len(),
            nips@.len() == i,
            forall|j: int| 0 <= j < i ==> nips@[j].nip@ == spec_nip_label(
                (#[trigger] config.supported_nips@[j]).0,
            ) && nips@[j].url@ == config.supported_nips@[j].1@,
        decreases config.supported_nips@.len() - i,
    {
        let entry = &config.supported_nips[i];
        nips.push(SupportedNip { nip: format_nip_label(entry.0), url: entry.1.clone() });
        i = i + 1;
    }
    IndexTemplate {
        relay_name: config.name.clone(),
        relay_description: config.description.clone(),
        relay_url: String::from_str("https://relay.bolt/ws"),
        supported_nips: nips,
    }
}

} // verus!
