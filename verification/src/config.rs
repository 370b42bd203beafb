//! Service configuration: the keys and settings that a PRUDP service uses.

use crate::prudp::packet::{sum_bytes_u32, StreamType};
use crate::text::{chars_of, find, index_of, push_chars, string_from_chars, sub_chars};
use vstd::prelude::*;

verus! {

/// `sodiumoxide::crypto::secretbox::gen_key`: the bytes of a fresh random
/// secret-box key. Nothing is stated of them.
#[verifier::external_body]
fn gen_ticket_key() -> (r: [u8; 32]) {
    sodiumoxide::crypto::secretbox::gen_key().0
}

/// The bytes of `s`, as a vector.
pub fn bytes_vec(s: &[u8]) -> (r: Vec<u8>)
    ensures
        r@ == s@,
{
    let mut v: Vec<u8> = Vec::new();
    let mut i: usize = 0;
    while i < s.len()
        invariant
            i <= s@.len(),
            v@ =~= s@.subrange(0, i as int),
        decreases s@.len() - i,
    {
        v.push(s[i]);
        i = i + 1;
    }
    v
}

/// The default crypto key, `CD&ML`.
pub open spec fn default_crypto_key() -> Seq<u8> {
    seq![0x43u8, 0x44, 0x26, 0x4d, 0x4c]
}

/// The access key of Splinter Cell Blacklist, `yl4NG7qZ`.
pub open spec fn blacklist_access_key() -> Seq<u8> {
    seq![0x79u8, 0x6c, 0x34, 0x4e, 0x47, 0x37, 0x71, 0x5a]
}

/// The keys and the virtual port of a service.
pub struct Context {
    /// Key whose byte sum seeds the checksums of secure streams.
    pub access_key: Vec<u8>,
    /// RC4 key of secure stream payloads.
    pub crypto_key: Vec<u8>,
    /// Listening socket address of the service, in text.
    pub listen: String,
    /// Virtual port of the service.
    pub vport: u8,
    /// Socket address of the secure server, in text, if there is one.
    pub secure_server_addr: Option<String>,
    /// Further settings, by name.
    pub settings: Vec<(String, String)>,
    /// Secret-box key that seals Kerberos tickets.
    pub ticket_key: [u8; 32],
}

impl Context {
    /// An empty access key, the crypto key `CD&ML`, virtual port 1 and a
    /// fresh random ticket key.
    pub fn new_default() -> (r: Context)
        ensures
            r.access_key@ == Seq::<u8>::empty(),
            r.crypto_key@ == default_crypto_key(),
            r.listen@ == "0.0.0.0:9999"@,
            r.vport == 1,
            r.secure_server_addr is None,
            r.settings@.len() == 0,
    {
        let mut crypto_key: Vec<u8> = Vec::new();
        crypto_key.push(0x43);
        crypto_key.push(0x44);
        crypto_key.push(0x26);
        crypto_key.push(0x4d);
        crypto_key.push(0x4c);
        assert(crypto_key@ =~= default_crypto_key());
        Context {
            access_key: Vec::new(),
            crypto_key,
            listen: String::from_str("0.0.0.0:9999"),
            vport: 1,
            secure_server_addr: None,
            settings: Vec::new(),
            ticket_key: gen_ticket_key(),
        }
    }

    /// The context of Splinter Cell Blacklist: its access key and the
    /// default for the rest.
    pub fn splinter_cell_blacklist() -> (r: Context)
        ensures
            r.access_key@ == blacklist_access_key(),
            r.crypto_key@ == default_crypto_key(),
            r.listen@ == "0.0.0.0:9999"@,
            r.vport == 1,
            r.secure_server_addr is None,
            r.settings@.len() == 0,
    {
        let mut ctx = Context::new_default();
        let mut k: Vec<u8> = Vec::new();
        k.push(0x79);
        k.push(0x6c);
        k.push(0x34);
        k.push(0x4e);
        k.push(0x47);
        k.push(0x37);
        k.push(0x71);
        k.push(0x5a);
        assert(k@ =~= blacklist_access_key());
        ctx.access_key = k;
        ctx
    }

    /// The checksum key of a stream type.
    pub open spec fn spec_key(&self, stype: StreamType) -> u32 {
        if stype == StreamType::RVSec {
            sum_bytes_u32(self.access_key@)
        } else {
            0
        }
    }

    /// The checksum key of a stream type: the wrapping byte sum of the
    /// access key for secure streams, 0 for the others.
    pub fn key(&self, stype: StreamType) -> (r: u32)
        ensures
            r == self.spec_key(stype),
    {
        match stype {
            StreamType::RVSec => {
                let mut sum: u32 = 0;
                let mut i: usize = 0;
                while i < self.access_key.len()
                    invariant
                        i <= self.access_key@.len(),
                        sum == sum_bytes_u32(self.access_key@.subrange(0, i as int)),
                    decreases self.access_key@.len() - i,
                {
                    assert(self.access_key@.subrange(0, i + 1).drop_last() =~= self.access_key@.subrange(0, i as int));
                    sum = ((sum as u64 + self.access_key[i] as u64) % 0x1_0000_0000) as u32;
                    i = i + 1;
                }
                assert(self.access_key@.subrange(0, self.access_key@.len() as int) =~= self.access_key@);
                sum
            },
            _ => 0,
        }
    }
}

impl Default for Context {
    fn default() -> (r: Context)
        ensures
            r.access_key@ == Seq::<u8>::empty(),
            r.crypto_key@ == default_crypto_key(),
            r.listen@ == "0.0.0.0:9999"@,
            r.vport == 1,
            r.secure_server_addr is None,
            r.settings@.len() == 0,
    {
        Context::new_default()
    }
}

// ---------------------------------------------------------------------------
// The online configuration
// ---------------------------------------------------------------------------

/// One entry of the online configuration: a name and its values.
pub struct OnlineConfigItem {
    pub name: String,
    pub values: Vec<String>,
}

/// The online configuration as the game reads it: a raw JSON text, or
/// typed entries.
pub enum OnlineConfigContent {
    Raw(String),
    Typed(Vec<OnlineConfigItem>),
}

/// The online configuration service: its listening socket address, in
/// text, and the configuration that it serves.
pub struct OnlineConfig {
    pub listen: String,
    pub content: OnlineConfigContent,
}

/// The view of an entry: its name and values.
pub open spec fn item_view(item: OnlineConfigItem) -> (Seq<char>, Seq<Seq<char>>) {
    (item.name@, item.values@.map_values(|v: String| v@))
}

/// The name of the entry that holds the sandbox station URLs.
pub open spec fn sandbox_url() -> Seq<char> {
    "SandboxUrl"@
}

/// The name of the entry that holds the sandbox socket addresses.
pub open spec fn sandbox_url_ws() -> Seq<char> {
    "SandboxUrlWS"@
}

/// `s` with `s[start..end]` replaced by `ip`.
pub open spec fn splice(s: Seq<char>, start: int, end: int, ip: Seq<char>) -> Seq<char> {
    s.subrange(0, start) + ip + s.subrange(end, s.len() as int)
}

/// The text between the first `open` and the first `close` at or after
/// `from` replaced by `ip`; `None` when either is missing.
pub open spec fn replace_between(
    s: Seq<char>,
    from: int,
    open: Seq<char>,
    close: Seq<char>,
    ip: Seq<char>,
) -> Option<Seq<char>> {
    match (index_of(s.skip(from), open), index_of(s.skip(from), close)) {
        (Some(a), Some(b)) => Some(splice(s, from + a + open.len(), from + b, ip)),
        _ => None,
    }
}

/// Whether the first `close` does not come before the end of the first
/// `open` (where both occur after `from`).
pub open spec fn replace_between_ok(s: Seq<char>, from: int, open: Seq<char>, close: Seq<char>) -> bool {
    match (index_of(s.skip(from), open), index_of(s.skip(from), close)) {
        (Some(a), Some(b)) => a + open.len() <= b,
        _ => true,
    }
}

/// A station URL with the text between `address=` and `;port` replaced by
/// `ip`; unchanged without either.
pub open spec fn url_with_ip(v: Seq<char>, ip: Seq<char>) -> Seq<char> {
    match replace_between(v, 0, "address="@, ";port"@, ip) {
        Some(w) => w,
        None => v,
    }
}

/// The raw configuration with the sandbox address replaced by `ip`: first
/// the address of the `SandboxUrl` entry, then, only where that was
/// replaced, the first value of the `SandboxUrlWS` entry.
pub open spec fn raw_with_ip(s: Seq<char>, ip: Seq<char>) -> Seq<char> {
    match index_of(s, "\"Name\":\"SandboxUrl\","@) {
        None => s,
        Some(i) => match replace_between(s, i, "address="@, ";port"@, ip) {
            None => s,
            Some(s1) => match index_of(s1, "\"Name\":\"SandboxUrlWS\","@) {
                None => s1,
                Some(j) => match replace_between(s1, j, "\"Values\":[\""@, "\"]"@, ip) {
                    None => s1,
                    Some(s2) => s2,
                },
            },
        },
    }
}

/// Whether the replacements of `raw_with_ip` find each closing text after
/// its opening text.
pub open spec fn raw_with_ip_ok(s: Seq<char>, ip: Seq<char>) -> bool {
    match index_of(s, "\"Name\":\"SandboxUrl\","@) {
        None => true,
        Some(i) => replace_between_ok(s, i, "address="@, ";port"@) && match replace_between(
            s,
            i,
            "address="@,
            ";port"@,
            ip,
        ) {
            None => true,
            Some(s1) => match index_of(s1, "\"Name\":\"SandboxUrlWS\","@) {
                None => true,
                Some(j) => replace_between_ok(s1, j, "\"Values\":[\""@, "\"]"@),
            },
        },
    }
}

/// Whether every station URL of a `SandboxUrl` entry has its `;port` after
/// its `address=`.
pub open spec fn typed_with_ip_ok(items: Seq<OnlineConfigItem>) -> bool {
    forall|k: int, m: int|
        0 <= k < items.len() && items[k].name@ == sandbox_url() && 0 <= m < items[k].values@.len()
            ==> replace_between_ok(#[trigger] items[k].values@[m]@, 0, "address="@, ";port"@)
}

/// Whether `set_ips` can rewrite the content.
pub open spec fn set_ips_ok(c: OnlineConfigContent, ip: Seq<char>) -> bool {
    match c {
        OnlineConfigContent::Raw(s) => raw_with_ip_ok(s@, ip),
        OnlineConfigContent::Typed(items) => typed_with_ip_ok(items@),
    }
}

/// The text of `v` with the first `open` to the first `close` at or after
/// `from` replaced by `ip`, or `None` when either is missing.
fn replace_between_exec(v: &[char], from: usize, open: &[char], close: &[char], ip: &[char]) -> (r: Option<Vec<char>>)
    requires
        from <= v@.len(),
        replace_between_ok(v@, from as int, open@, close@),
    ensures
        match replace_between(v@, from as int, open@, close@, ip@) {
            Some(w) => r matches Some(x) && x@ == w,
            None => r is None,
        },
{
    let a = match find(v, from, open) {
        Some(a) => a,
        None => return None,
    };
    let b = match find(v, from, close) {
        Some(b) => b,
        None => return None,
    };
    proof {
        crate::text::lemma_index_of(v@.skip(from as int), open@);
        crate::text::lemma_index_of(v@.skip(from as int), close@);
    }
    assert(a + open@.len() <= b <= v@.len());
    let start = a + open.len();
    let mut out = sub_chars(v, 0, start);
    let mut k: usize = 0;
    while k < ip.len()
        invariant
            k <= ip@.len(),
            start <= v@.len(),
            out@ == v@.subrange(0, start as int) + ip@.subrange(0, k as int),
        decreases ip@.len() - k,
    {
        out.push(ip[k]);
        k = k + 1;
    }
    let tail = sub_chars(v, b, v.len());
    let mut m: usize = 0;
    let ghost head = out@;
    while m < tail.len()
        invariant
            m <= tail@.len(),
            out@ == head + tail@.subrange(0, m as int),
        decreases tail@.len() - m,
    {
        out.push(tail[m]);
        m = m + 1;
    }
    assert(ip@.subrange(0, ip@.len() as int) =~= ip@);
    assert(tail@.subrange(0, tail@.len() as int) =~= tail@);
    assert(out@ =~= splice(v@, (from + (a - from) + open@.len()) as int, b as int, ip@));
    Some(out)
}

/// The views of a list of strings.
pub open spec fn string_views(v: Seq<String>) -> Seq<Seq<char>> {
    v.map_values(|s: String| s@)
}

/// The values of a `SandboxUrlWS` entry after `with_ip`: each value for
/// which it gives a text is replaced by that text.
pub open spec fn ws_rewritten<F: Fn(&String) -> Option<String>>(old: Seq<String>, new: Seq<String>, with_ip: F) -> bool {
    &&& new.len() == old.len()
    &&& forall|m: int| 0 <= m < old.len() ==> #[trigger] ws_value_rewritten(old[m], new[m], with_ip)
}

/// A `SandboxUrlWS` value after `with_ip`: what it gave for the old value,
/// or the old value where it gave nothing.
pub open spec fn ws_value_rewritten<F: Fn(&String) -> Option<String>>(old: String, new: String, with_ip: F) -> bool {
    exists|res: Option<String>| #[trigger] with_ip.ensures((&old,), res) && new@ == match res {
        Some(w) => w@,
        None => old@,
    }
}

impl OnlineConfig {
    /// The default: listening on `0.0.0.0:80`, with the sandbox at
    /// `127.0.0.1`, port 21126.
    pub fn new_default() -> (r: OnlineConfig)
        ensures
            r.listen@ == "0.0.0.0:80"@,
            r.content matches OnlineConfigContent::Typed(items) && items@.len() == 2
                && items@[0].name@ == sandbox_url()
                && string_views(items@[0].values@) == seq!["prudp:/address=127.0.0.1;port=21126"@]
                && items@[1].name@ == sandbox_url_ws()
                && string_views(items@[1].values@) == seq!["127.0.0.1:21126"@],
    {
        let mut url_values: Vec<String> = Vec::new();
        url_values.push(String::from_str("prudp:/address=127.0.0.1;port=21126"));
        let mut ws_values: Vec<String> = Vec::new();
        ws_values.push(String::from_str("127.0.0.1:21126"));
        let mut items: Vec<OnlineConfigItem> = Vec::new();
        items.push(OnlineConfigItem { name: String::from_str("SandboxUrl"), values: url_values });
        items.push(OnlineConfigItem { name: String::from_str("SandboxUrlWS"), values: ws_values });
        let r = OnlineConfig { listen: String::from_str("0.0.0.0:80"), content: OnlineConfigContent::Typed(items) };
        assert(string_views(url_values@) =~= seq!["prudp:/address=127.0.0.1;port=21126"@]);
        assert(string_views(ws_values@) =~= seq!["127.0.0.1:21126"@]);
        r
    }

    /// Points the configuration at a new address: `listen` becomes the
    /// listening socket address; in a raw configuration the sandbox address
    /// becomes `public_ip` (see `raw_with_ip`); in typed entries each
    /// `SandboxUrl` station URL gets `public_ip` as its address and each
    /// `SandboxUrlWS` value is replaced by what `with_public_ip` gives for
    /// it, where it gives a text (the socket address with the public IP).
    pub fn set_ips<F: Fn(&String) -> Option<String>>(&mut self, listen: String, public_ip: &str, with_public_ip: F)
        requires
            set_ips_ok(old(self).content, public_ip@),
            forall|v: &String| #[trigger] with_public_ip.requires((v,)),
        ensures
            final(self).listen@ == listen@,
            match (old(self).content, final(self).content) {
                (OnlineConfigContent::Raw(s), OnlineConfigContent::Raw(t)) => t@ == raw_with_ip(s@, public_ip@),
                (OnlineConfigContent::Typed(a), OnlineConfigContent::Typed(b)) => {
                    &&& b@.len() == a@.len()
                    &&& forall|k: int| 0 <= k < a@.len() ==> {
                        &&& (#[trigger] b@[k]).name@ == a@[k].name@
                        &&& a@[k].name@ == sandbox_url() ==> string_views(b@[k].values@) == string_views(
                            a@[k].values@,
                        ).map_values(|v: Seq<char>| url_with_ip(v, public_ip@))
                        &&& a@[k].name@ == sandbox_url_ws() ==> ws_rewritten(a@[k].values@, b@[k].values@, with_public_ip)
                        &&& a@[k].name@ != sandbox_url() && a@[k].name@ != sandbox_url_ws() ==> string_views(b@[k].values@)
                            == string_views(a@[k].values@)
                    }
                },
                _ => false,
            },
    {
        let ip = chars_of(public_ip);
        self.listen = listen;
        let new_content = match &self.content {
            OnlineConfigContent::Raw(s) => OnlineConfigContent::Raw(raw_set_ip(s, ip.as_slice())),
            OnlineConfigContent::Typed(items) => OnlineConfigContent::Typed(typed_set_ip(items, ip.as_slice(), &with_public_ip)),
        };
        self.content = new_content;
    }
}

/// Whether the first `close` at or after `from` does not come before the
/// end of the first `open` (see `replace_between_ok`).
fn replace_between_ok_exec(v: &[char], from: usize, open: &[char], close: &[char]) -> (r: bool)
    requires
        from <= v@.len(),
    ensures
        r == replace_between_ok(v@, from as int, open@, close@),
{
    match (find(v, from, open), find(v, from, close)) {
        (Some(a), Some(b)) => a <= b && b - a >= open.len(),
        _ => true,
    }
}

/// Whether `raw_with_ip_ok` holds.
fn raw_ok(s: &String, ip: &[char]) -> (r: bool)
    ensures
        r == raw_with_ip_ok(s@, ip@),
{
    let cs = chars_of(s.as_str());
    let url_name = chars_of("\"Name\":\"SandboxUrl\",");
    let ws_name = chars_of("\"Name\":\"SandboxUrlWS\",");
    let address = chars_of("address=");
    let port = chars_of(";port");
    let values = chars_of("\"Values\":[\"");
    let close = chars_of("\"]");
    assert(cs@.skip(0) =~= cs@);
    assert(cs@ == s@);
    let i = match find(cs.as_slice(), 0, url_name.as_slice()) {
        Some(i) => i,
        None => return true,
    };
    proof {
        crate::text::lemma_index_of(cs@, url_name@);
    }
    assert(index_of(s@, "\"Name\":\"SandboxUrl\","@) == Some(i as int));
    if !replace_between_ok_exec(cs.as_slice(), i, address.as_slice(), port.as_slice()) {
        return false;
    }
    let s1 = match replace_between_exec(cs.as_slice(), i, address.as_slice(), port.as_slice(), ip) {
        Some(s1) => s1,
        None => return true,
    };
    assert(s1@.skip(0) =~= s1@);
    let j = match find(s1.as_slice(), 0, ws_name.as_slice()) {
        Some(j) => j,
        None => return true,
    };
    proof {
        crate::text::lemma_index_of(s1@, ws_name@);
    }
    assert(replace_between(s@, i as int, address@, port@, ip@) == Some(s1@));
    assert(index_of(s1@, "\"Name\":\"SandboxUrlWS\","@) == Some(j as int));
    replace_between_ok_exec(s1.as_slice(), j, values.as_slice(), close.as_slice())
}

impl OnlineConfig {
    /// Whether `set_ips` can rewrite the content for `public_ip`: each
    /// sandbox address it replaces ends after it starts.
    pub fn can_set_ips(&self, public_ip: &str) -> (r: bool)
        ensures
            r == set_ips_ok(self.content, public_ip@),
    {
        let ip = chars_of(public_ip);
        match &self.content {
            OnlineConfigContent::Raw(s) => raw_ok(s, ip.as_slice()),
            OnlineConfigContent::Typed(items) => {
                let url_name = String::from_str("SandboxUrl");
                let address = chars_of("address=");
                let port = chars_of(";port");
                let mut k: usize = 0;
                while k < items.len()
                    invariant
                        k <= items@.len(),
                        set_ips_ok(self.content, public_ip@) == typed_with_ip_ok(items@),
                        url_name@ == sandbox_url(),
                        address@ == "address="@,
                        port@ == ";port"@,
                        forall|q: int, m: int|
                            0 <= q < k && items@[q].name@ == sandbox_url() && 0 <= m < items@[q].values@.len()
                                ==> replace_between_ok(#[trigger] items@[q].values@[m]@, 0, "address="@, ";port"@),
                    decreases items@.len() - k,
                {
                    if items[k].name == url_name {
                        let mut m: usize = 0;
                        while m < items[k].values.len()
                            invariant
                                k < items@.len(),
                                set_ips_ok(self.content, public_ip@) == typed_with_ip_ok(items@),
                                items@[k as int].name@ == sandbox_url(),
                                m <= items@[k as int].values@.len(),
                                address@ == "address="@,
                                port@ == ";port"@,
                                forall|j: int|
                                    0 <= j < m ==> replace_between_ok(
                                        #[trigger] items@[k as int].values@[j]@,
                                        0,
                                        "address="@,
                                        ";port"@,
                                    ),
                            decreases items@[k as int].values@.len() - m,
                        {
                            let cs = chars_of(items[k].values[m].as_str());
                            assert(cs@.skip(0) =~= cs@);
                            assert(cs@ == items@[k as int].values@[m as int]@);
                            if !replace_between_ok_exec(cs.as_slice(), 0, address.as_slice(), port.as_slice()) {
                                assert(!replace_between_ok(items@[k as int].values@[m as int]@, 0, "address="@, ";port"@));
                                assert(!typed_with_ip_ok(items@));
                                return false;
                            }
                            m = m + 1;
                        }
                    }
                    k = k + 1;
                }
                true
            },
        }
    }
}

/// `raw_with_ip`, computed.
fn raw_set_ip(s: &String, ip: &[char]) -> (r: String)
    requires
        raw_with_ip_ok(s@, ip@),
    ensures
        r@ == raw_with_ip(s@, ip@),
{
    let cs = chars_of(s.as_str());
    let url_name = chars_of("\"Name\":\"SandboxUrl\",");
    let ws_name = chars_of("\"Name\":\"SandboxUrlWS\",");
    let address = chars_of("address=");
    let port = chars_of(";port");
    let values = chars_of("\"Values\":[\"");
    let close = chars_of("\"]");
    assert(cs@.skip(0) =~= cs@);
    let i = match find(cs.as_slice(), 0, url_name.as_slice()) {
        Some(i) => i,
        None => return s.clone(),
    };
    proof {
        crate::text::lemma_index_of(cs@, url_name@);
    }
    assert(cs@ == s@);
    assert(index_of(s@, "\"Name\":\"SandboxUrl\","@) == Some(i as int));
    assert(replace_between_ok(cs@, i as int, address@, port@));
    let s1 = match replace_between_exec(cs.as_slice(), i, address.as_slice(), port.as_slice(), ip) {
        Some(s1) => s1,
        None => return s.clone(),
    };
    assert(s1@.skip(0) =~= s1@);
    let j = match find(s1.as_slice(), 0, ws_name.as_slice()) {
        Some(j) => j,
        None => return string_from_chars(s1.as_slice()),
    };
    proof {
        crate::text::lemma_index_of(s1@, ws_name@);
    }
    assert(replace_between(cs@, i as int, address@, port@, ip@) == Some(s1@));
    assert(index_of(s1@, "\"Name\":\"SandboxUrlWS\","@) == Some(j as int));
    match replace_between_exec(s1.as_slice(), j, values.as_slice(), close.as_slice(), ip) {
        Some(s2) => string_from_chars(s2.as_slice()),
        None => string_from_chars(s1.as_slice()),
    }
}

/// The typed entries with the sandbox addresses replaced (see `set_ips`).
fn typed_set_ip<F: Fn(&String) -> Option<String>>(items: &Vec<OnlineConfigItem>, ip: &[char], with_public_ip: &F) -> (r: Vec<OnlineConfigItem>)
    requires
        typed_with_ip_ok(items@),
        forall|v: &String| #[trigger] with_public_ip.requires((v,)),
    ensures
        r@.len() == items@.len(),
        forall|k: int| 0 <= k < items@.len() ==> {
            &&& (#[trigger] r@[k]).name@ == items@[k].name@
            &&& items@[k].name@ == sandbox_url() ==> string_views(r@[k].values@) == string_views(items@[k].values@).map_values(
                |v: Seq<char>| url_with_ip(v, ip@),
            )
            &&& items@[k].name@ == sandbox_url_ws() ==> ws_rewritten(items@[k].values@, r@[k].values@, *with_public_ip)
            &&& items@[k].name@ != sandbox_url() && items@[k].name@ != sandbox_url_ws() ==> string_views(r@[k].values@)
                == string_views(items@[k].values@)
        },
{
    proof {
        reveal_strlit("SandboxUrl");
        reveal_strlit("SandboxUrlWS");
    }
    assert(sandbox_url().len() != sandbox_url_ws().len());
    let url_name = String::from_str("SandboxUrl");
    let ws_name = String::from_str("SandboxUrlWS");
    let mut out: Vec<OnlineConfigItem> = Vec::new();
    let mut k: usize = 0;
    while k < items.len()
        invariant
            k <= items@.len(),
            out@.len() == k,
            url_name@ == sandbox_url(),
            ws_name@ == sandbox_url_ws(),
            sandbox_url() != sandbox_url_ws(),
            typed_with_ip_ok(items@),
            forall|v: &String| #[trigger] with_public_ip.requires((v,)),
            forall|q: int| 0 <= q < k ==> {
                &&& (#[trigger] out@[q]).name@ == items@[q].name@
                &&& items@[q].name@ == sandbox_url() ==> string_views(out@[q].values@) == string_views(items@[q].values@).map_values(
                    |v: Seq<char>| url_with_ip(v, ip@),
                )
                &&& items@[q].name@ == sandbox_url_ws() ==> ws_rewritten(items@[q].values@, out@[q].values@, *with_public_ip)
                &&& items@[q].name@ != sandbox_url() && items@[q].name@ != sandbox_url_ws() ==> string_views(out@[q].values@)
                    == string_views(items@[q].values@)
            },
        decreases items@.len() - k,
    {
        let item = &items[k];
        let is_url = item.name == url_name;
        let is_ws = item.name == ws_name;
        let mut values: Vec<String> = Vec::new();
        let mut m: usize = 0;
        while m < item.values.len()
            invariant
                k < items@.len(),
                *item == items@[k as int],
                m <= item.values@.len(),
                values@.len() == m,
                is_url == (item.name@ == sandbox_url()),
                is_ws == (item.name@ == sandbox_url_ws()),
                !(is_url && is_ws),
                typed_with_ip_ok(items@),
                forall|v: &String| #[trigger] with_public_ip.requires((v,)),
                forall|q: int| 0 <= q < m && is_url ==> (#[trigger] values@[q])@ == url_with_ip(item.values@[q]@, ip@),
                forall|q: int| 0 <= q < m && is_ws ==> ws_value_rewritten(item.values@[q], #[trigger] values@[q], *with_public_ip),
                forall|q: int| 0 <= q < m && !is_url && !is_ws ==> (#[trigger] values@[q])@ == item.values@[q]@,
            decreases item.values@.len() - m,
        {
            let v = &item.values[m];
            let nv = if is_url {
                let cs = chars_of(v.as_str());
                let address = chars_of("address=");
                let port = chars_of(";port");
                assert(replace_between_ok(item.values@[m as int]@, 0, "address="@, ";port"@));
                assert(cs@ == item.values@[m as int]@);
                match replace_between_exec(cs.as_slice(), 0, address.as_slice(), port.as_slice(), ip) {
                    Some(w) => string_from_chars(w.as_slice()),
                    None => v.clone(),
                }
            } else if is_ws {
                let res = with_public_ip(v);
                let w = match res {
                    Some(w) => w,
                    None => v.clone(),
                };
                assert(ws_value_rewritten(item.values@[m as int], w, *with_public_ip));
                w
            } else {
                v.clone()
            };
            let ghost before = values@;
            values.push(nv);
            assert(forall|q: int| 0 <= q < m ==> values@[q] == before[q]);
            m = m + 1;
        }
        let name = item.name.clone();
        out.push(OnlineConfigItem { name, values });
        proof {
            let q = k as int;
            if is_url {
                assert(string_views(out@[q].values@) =~= string_views(items@[q].values@).map_values(
                    |v: Seq<char>| url_with_ip(v, ip@),
                ));
            }
            if !is_url && !is_ws {
                assert(string_views(out@[q].values@) =~= string_views(items@[q].values@));
            }
        }
        k = k + 1;
    }
    out
}

// ---------------------------------------------------------------------------
// Services
// ---------------------------------------------------------------------------

/// A content server: its listening socket address, in text, and the files
/// that it serves, as (request path, file path) pairs.
pub struct ContentServer {
    pub listen: String,
    pub files: Vec<(String, String)>,
}

impl ContentServer {
    /// The default: listening on `127.0.0.1:8000`, serving
    /// `/mp_balancing.ini` from `./data/mp_balancing.ini`.
    pub fn new_default() -> (r: ContentServer)
        ensures
            r.listen@ == "127.0.0.1:8000"@,
            r.files@.len() == 1,
            r.files@[0].0@ == "/mp_balancing.ini"@,
            r.files@[0].1@ == "./data/mp_balancing.ini"@,
    {
        let mut files: Vec<(String, String)> = Vec::new();
        files.push((String::from_str("/mp_balancing.ini"), String::from_str("./data/mp_balancing.ini")));
        ContentServer { listen: String::from_str("127.0.0.1:8000"), files }
    }
}

/// A service that the server runs.
pub enum Service {
    Authentication(Context),
    Secure(Context),
    Config(OnlineConfig),
    Content(ContentServer),
}

impl Service {
    /// The default: an authentication service with the default context.
    pub fn new_default() -> (r: Service)
        ensures
            r matches Service::Authentication(ctx) && ctx.access_key@.len() == 0 && ctx.crypto_key@
                == default_crypto_key() && ctx.vport == 1 && ctx.secure_server_addr is None,
    {
        Service::Authentication(Context::new_default())
    }

    /// The service of a context configured without a kind: authentication
    /// where the context names a secure server, secure otherwise.
    pub fn from_untagged(ctx: Context) -> (r: Service)
        ensures
            ctx.secure_server_addr is Some ==> r == Service::Authentication(ctx),
            ctx.secure_server_addr is None ==> r == Service::Secure(ctx),
    {
        if ctx.secure_server_addr.is_some() {
            Service::Authentication(ctx)
        } else {
            Service::Secure(ctx)
        }
    }
}

/// The configuration of a server: the names of the services to run, and
/// the services configured, by name.
pub struct Config {
    pub services: Vec<String>,
    pub service: Vec<(String, Service)>,
}

/// `s` without its first `x`.
pub open spec fn remove_first(s: Seq<Seq<char>>, x: Seq<char>) -> Seq<Seq<char>>
    decreases s.len(),
{
    if s.len() == 0 {
        s
    } else if s[0] == x {
        s.skip(1)
    } else {
        seq![s[0]].add(remove_first(s.skip(1), x))
    }
}

/// The configured services that `remaining` names, in order, each name
/// used once; and the names that none of them used.
pub open spec fn select_services(remaining: Seq<Seq<char>>, configured: Seq<(String, Service)>) -> (
    Seq<(String, Service)>,
    Seq<Seq<char>>,
)
    decreases configured.len(),
{
    if configured.len() == 0 {
        (Seq::empty(), remaining)
    } else {
        let entry = configured[0];
        if remaining.contains(entry.0@) {
            let (kept, left) = select_services(remove_first(remaining, entry.0@), configured.skip(1));
            (seq![entry] + kept, left)
        } else {
            select_services(remaining, configured.skip(1))
        }
    }
}

/// Whether no name occurs twice.
pub open spec fn distinct_names(s: Seq<Seq<char>>) -> bool {
    forall|i: int, j: int| 0 <= i < j < s.len() ==> s[i] != s[j]
}

/// The names of configured services.
pub open spec fn configured_names(configured: Seq<(String, Service)>) -> Seq<Seq<char>> {
    configured.map_values(|e: (String, Service)| e.0@)
}

/// Removing the first `x` from distinct names removes `x` and keeps them
/// distinct.
proof fn lemma_remove_first_contains(s: Seq<Seq<char>>, x: Seq<char>)
    requires
        distinct_names(s),
    ensures
        forall|n: Seq<char>| #[trigger] remove_first(s, x).contains(n) <==> (s.contains(n) && n != x),
        distinct_names(remove_first(s, x)),
    decreases s.len(),
{
    if s.len() > 0 {
        let t = s.skip(1);
        assert(distinct_names(t)) by {
            assert forall|i: int, j: int| 0 <= i < j < t.len() implies t[i] != t[j] by {
                assert(t[i] == s[i + 1] && t[j] == s[j + 1]);
            }
        }
        assert forall|n: Seq<char>| t.contains(n) implies s.contains(n) && n != s[0] by {
            let k = choose|k: int| 0 <= k < t.len() && t[k] == n;
            assert(s[k + 1] == n);
        }
        assert forall|n: Seq<char>| s.contains(n) && n != s[0] implies t.contains(n) by {
            let k = choose|k: int| 0 <= k < s.len() && s[k] == n;
            assert(t[k - 1] == n);
        }
        if s[0] != x {
            lemma_remove_first_contains(t, x);
            let r = remove_first(t, x);
            let whole = seq![s[0]].add(r);
            assert forall|n: Seq<char>| whole.contains(n) implies s.contains(n) && n != x by {
                let k = choose|k: int| 0 <= k < whole.len() && whole[k] == n;
                if k == 0 {
                    assert(s[0] == n);
                } else {
                    assert(r[k - 1] == n);
                    assert(r.contains(n));
                    assert(t.contains(n));
                }
            }
            assert forall|n: Seq<char>| s.contains(n) && n != x implies whole.contains(n) by {
                if n == s[0] {
                    assert(whole[0] == n);
                } else {
                    assert(t.contains(n));
                    assert(r.contains(n));
                    let k = choose|k: int| 0 <= k < r.len() && r[k] == n;
                    assert(whole[k + 1] == n);
                }
            }
            assert(remove_first(s, x) == whole);
            assert(distinct_names(whole)) by {
                assert forall|i: int, j: int| 0 <= i < j < whole.len() implies whole[i] != whole[j] by {
                    if i == 0 {
                        assert(r.contains(whole[j])) by {
                            assert(r[j - 1] == whole[j]);
                        }
                    }
                }
            }
        }
    }
}

/// Selecting services: the names left over are the enabled names that no
/// configured service has, so the selection leaves none exactly when every
/// enabled name is configured; and every service kept is a configured one
/// whose name is enabled. The enabled names are distinct (as in a set).
pub proof fn lemma_select_services(enabled: Seq<Seq<char>>, configured: Seq<(String, Service)>)
    requires
        distinct_names(enabled),
    ensures
        ({
            let (kept, left) = select_services(enabled, configured);
            &&& forall|n: Seq<char>|
                #[trigger] left.contains(n) <==> enabled.contains(n) && !configured_names(configured).contains(n)
            &&& left.len() == 0 <==> forall|n: Seq<char>|
                enabled.contains(n) ==> #[trigger] configured_names(configured).contains(n)
            &&& forall|i: int|
                0 <= i < kept.len() ==> enabled.contains(#[trigger] kept[i].0@) && configured.contains(kept[i])
        }),
    decreases configured.len(),
{
    let (kept, left) = select_services(enabled, configured);
    if configured.len() == 0 {
        assert(configured_names(configured) =~= Seq::<Seq<char>>::empty());
    } else {
        let e = configured[0];
        let x = e.0@;
        let rest = configured.skip(1);
        assert(configured_names(configured) =~= seq![x] + configured_names(rest));
        assert forall|n: Seq<char>| #[trigger] configured_names(configured).contains(n) <==> (n == x
            || configured_names(rest).contains(n)) by {
            if configured_names(configured).contains(n) && n != x {
                let k = choose|k: int| 0 <= k < configured_names(configured).len() && configured_names(configured)[k] == n;
                assert(configured_names(rest)[k - 1] == n);
            }
            if configured_names(rest).contains(n) {
                let k = choose|k: int| 0 <= k < configured_names(rest).len() && configured_names(rest)[k] == n;
                assert(configured_names(configured)[k + 1] == n);
            }
            if n == x {
                assert(configured_names(configured)[0] == n);
            }
        }
        assert forall|k: int| 0 <= k < rest.len() implies configured.contains(#[trigger] rest[k]) by {
            assert(configured[k + 1] == rest[k]);
        }
        if enabled.contains(x) {
            lemma_remove_first_contains(enabled, x);
            let r = remove_first(enabled, x);
            lemma_select_services(r, rest);
            let (kept2, left2) = select_services(r, rest);
            assert(kept == seq![e] + kept2);
            assert forall|i: int| 0 <= i < kept.len() implies enabled.contains(#[trigger] kept[i].0@) && configured.contains(
                kept[i],
            ) by {
                if i == 0 {
                    assert(configured[0] == e);
                } else {
                    assert(kept[i] == kept2[i - 1]);
                    assert(r.contains(kept2[i - 1].0@));
                }
            }
        } else {
            lemma_select_services(enabled, rest);
            let (kept2, left2) = select_services(enabled, rest);
            assert(kept == kept2 && left == left2);
            assert forall|i: int| 0 <= i < kept.len() implies enabled.contains(#[trigger] kept[i].0@) && configured.contains(
                kept[i],
            ) by {
                assert(enabled.contains(kept2[i].0@));
                assert(rest.contains(kept2[i]));
                let k = choose|k: int| 0 <= k < rest.len() && rest[k] == kept2[i];
                assert(configured[k + 1] == kept2[i]);
            }
        }
        let names = configured_names(configured);
        assert forall|n: Seq<char>| #[trigger] left.contains(n) <==> enabled.contains(n) && !names.contains(n) by {
            if enabled.contains(x) {
                lemma_remove_first_contains(enabled, x);
            }
        }
        if left.len() == 0 {
            assert forall|n: Seq<char>| enabled.contains(n) implies #[trigger] names.contains(n) by {
                if !names.contains(n) {
                    assert(!left.contains(n));
                }
            }
        } else {
            assert(left.contains(left[0]));
        }
    }
    if configured.len() == 0 {
        assert(left == enabled && kept.len() == 0);
        if left.len() > 0 {
            assert(left.contains(left[0]));
            assert(!configured_names(configured).contains(left[0]));
        }
    }
}

/// The names joined by `/`.
pub open spec fn join_slash(names: Seq<Seq<char>>) -> Seq<char>
    decreases names.len(),
{
    if names.len() == 0 {
        Seq::empty()
    } else if names.len() == 1 {
        names[0]
    } else {
        names[0] + seq!['/'] + join_slash(names.skip(1))
    }
}

/// Removing a name that does not occur changes nothing.
proof fn lemma_remove_missing(s: Seq<Seq<char>>, x: Seq<char>)
    requires
        !s.contains(x),
    ensures
        remove_first(s, x) == s,
    decreases s.len(),
{
    if s.len() > 0 {
        assert(!s.skip(1).contains(x)) by {
            if s.skip(1).contains(x) {
                let k = choose|k: int| 0 <= k < s.skip(1).len() && s.skip(1)[k] == x;
                assert(s[k + 1] == x);
            }
        }
        lemma_remove_missing(s.skip(1), x);
        assert(seq![s[0]].add(s.skip(1)) =~= s);
    }
}

/// Removes the first element equal to `x`, if there is one.
fn remove_first_exec(s: &mut Vec<String>, x: &String) -> (found: bool)
    ensures
        found == string_views(old(s)@).contains(x@),
        string_views(final(s)@) == remove_first(string_views(old(s)@), x@),
    decreases old(s)@.len(),
{
    let ghost s0 = string_views(old(s)@);
    if s.len() == 0 {
        return false;
    }
    let first = s.remove(0);
    if first == *x {
        assert(string_views(s@) =~= s0.skip(1));
        assert(s0[0] == x@);
        true
    } else {
        let ghost rest = string_views(s@);
        assert(rest =~= s0.skip(1));
        let found = remove_first_exec(s, x);
        s.insert(0, first);
        assert(string_views(s@) =~= seq![s0[0]].add(remove_first(s0.skip(1), x@)));
        proof {
            if s0.contains(x@) {
                let k = choose|k: int| 0 <= k < s0.len() && s0[k] == x@;
                assert(k != 0);
                assert(rest[k - 1] == x@);
            }
            if rest.contains(x@) {
                let k = choose|k: int| 0 <= k < rest.len() && rest[k] == x@;
                assert(s0[k + 1] == x@);
            }
        }
        found
    }
}

/// The names joined by `/`.
fn join_names(names: &Vec<String>) -> (r: String)
    ensures
        r@ == join_slash(string_views(names@)),
{
    let mut out = String::new();
    let mut i = names.len();
    let ghost all = string_views(names@);
    if i == 0 {
        return out;
    }
    // build from the back: out holds join_slash(all.skip(i))
    let mut acc: Vec<char> = crate::text::chars_of(names[i - 1].as_str());
    i = i - 1;
    assert(all.skip(i as int).len() == 1);
    assert(acc@ == join_slash(all.skip(i as int)));
    while i > 0
        invariant
            0 <= i < names@.len(),
            all == string_views(names@),
            acc@ == join_slash(all.skip(i as int)),
        decreases i,
    {
        let name = crate::text::chars_of(names[i - 1].as_str());
        let mut next: Vec<char> = name;
        next.push('/');
        let mut k: usize = 0;
        let ghost head = next@;
        while k < acc.len()
            invariant
                k <= acc@.len(),
                next@ == head + acc@.subrange(0, k as int),
            decreases acc@.len() - k,
        {
            next.push(acc[k]);
            k = k + 1;
        }
        assert(acc@.subrange(0, acc@.len() as int) =~= acc@);
        assert(all.skip(i - 1).skip(1) =~= all.skip(i as int));
        assert(all.skip(i - 1)[0] == all[i - 1]);
        acc = next;
        i = i - 1;
    }
    assert(all.skip(0) =~= all);
    push_chars(&mut out, acc.as_slice());
    out
}

impl Config {
    /// Nothing occurs twice: the enabled names form a set, and no two
    /// configured services share a name.
    pub open spec fn wf(&self) -> bool {
        &&& distinct_names(string_views(self.services@))
        &&& distinct_names(configured_names(self.service@))
    }

    /// Whether nothing occurs twice.
    pub fn well_formed(&self) -> (r: bool)
        ensures
            r == self.wf(),
    {
        let n = self.services.len();
        let mut i: usize = 0;
        while i < n
            invariant
                n == self.services@.len(),
                i <= n,
                forall|a: int, b: int| 0 <= a < i && a < b < n ==> self.services@[a]@ != self.services@[b]@,
            decreases n - i,
        {
            let mut j: usize = i + 1;
            while j < n
                invariant
                    n == self.services@.len(),
                    i < n,
                    i + 1 <= j <= n,
                    forall|b: int| i < b < j ==> self.services@[i as int]@ != self.services@[b]@,
                decreases n - j,
            {
                if self.services[i] == self.services[j] {
                    assert(string_views(self.services@)[i as int] == string_views(self.services@)[j as int]);
                    return false;
                }
                j = j + 1;
            }
            i = i + 1;
        }
        assert(distinct_names(string_views(self.services@)));
        let m = self.service.len();
        let mut i: usize = 0;
        while i < m
            invariant
                m == self.service@.len(),
                i <= m,
                distinct_names(string_views(self.services@)),
                forall|a: int, b: int| 0 <= a < i && a < b < m ==> self.service@[a].0@ != self.service@[b].0@,
            decreases m - i,
        {
            let mut j: usize = i + 1;
            while j < m
                invariant
                    m == self.service@.len(),
                    i < m,
                    i + 1 <= j <= m,
                    forall|b: int| i < b < j ==> self.service@[i as int].0@ != self.service@[b].0@,
                decreases m - j,
            {
                if self.service[i].0 == self.service[j].0 {
                    assert(configured_names(self.service@)[i as int] == configured_names(self.service@)[j as int]);
                    return false;
                }
                j = j + 1;
            }
            i = i + 1;
        }
        true
    }

    /// The services to run, in the order in which they are configured: each
    /// configured service that `services` names, each name used once.
    /// Fails with the names that no configured service has, joined by `/`.
    pub fn into_services(self) -> (r: Result<Vec<(String, Service)>, crate::Error>)
        requires
            self.wf(),
        ensures
            ({
                let (kept, left) = select_services(string_views(self.services@), self.service@);
                &&& left.len() == 0 ==> (r matches Ok(v) && v@ == kept)
                &&& left.len() > 0 ==> (r matches Err(crate::Error::ServiceNotFound(s)) && s@ == join_slash(left))
            }),
    {
        let Config { services, service } = self;
        let mut remaining = services;
        let mut rest = service;
        let mut kept: Vec<(String, Service)> = Vec::new();
        let ghost all = rest@;
        let ghost goal = select_services(string_views(remaining@), all);
        let ghost mut i: int = 0;
        assert(all.skip(0) =~= all);
        while rest.len() > 0
            invariant
                0 <= i <= all.len(),
                rest@ == all.skip(i),
                goal.0 == kept@ + select_services(string_views(remaining@), rest@).0,
                goal.1 == select_services(string_views(remaining@), rest@).1,
            decreases rest@.len(),
        {
            let entry = rest.remove(0);
            let ghost before = string_views(remaining@);
            let found = remove_first_exec(&mut remaining, &entry.0);
            assert(rest@ =~= all.skip(i + 1));
            let ghost k0 = kept@;
            let ghost skipped = all.skip(i);
            assert(skipped[0] == entry);
            assert(skipped.skip(1) =~= rest@);
            if !found {
                proof {
                    lemma_remove_missing(before, entry.0@);
                }
                assert(string_views(remaining@) =~= before);
                assert(select_services(before, skipped) == select_services(before, rest@));
            }
            if found {
                kept.push(entry);
                assert(kept@ =~= k0 + seq![entry]);
                assert(select_services(before, skipped).0 =~= seq![entry] + select_services(
                    string_views(remaining@),
                    rest@,
                ).0);
                assert(goal.0 =~= kept@ + select_services(string_views(remaining@), rest@).0);
            }
            proof {
                i = i + 1;
            }
        }
        assert(goal.0 =~= kept@);
        if remaining.len() == 0 {
            assert(string_views(remaining@).len() == 0);
            Ok(kept)
        } else {
            Err(crate::Error::ServiceNotFound(join_names(&remaining)))
        }
    }
}

} // verus!
