//! Configuration of the AirDrop endpoint: names, port, service id, the
//! directories and files it keeps, and the choice of network interface and
//! address.

use vstd::prelude::*;
use vstd::string::{StrSliceExecFns, StringExecFns};
use crate::client::IpAddress;
use crate::text::hex_char;

verus! {

/// AirDrop receiver flags, as sharingd's receiverSupportsX methods name
/// them. A valid node supports pipelining or mixed types.
pub struct AirDropReceiverFlags;

impl AirDropReceiverFlags {
    pub const SUPPORTS_URL: u32 = 0x01;
    pub const SUPPORTS_DVZIP: u32 = 0x02;
    pub const SUPPORTS_PIPELINING: u32 = 0x04;
    pub const SUPPORTS_MIXED_TYPES: u32 = 0x08;
    pub const SUPPORTS_UNKNOWN1: u32 = 0x10;
    pub const SUPPORTS_UNKNOWN2: u32 = 0x20;
    pub const SUPPORTS_IRIS: u32 = 0x40;
    /// Probably: the server supports the /Discover URL.
    pub const SUPPORTS_DISCOVER_MAYBE: u32 = 0x80;
    pub const SUPPORTS_UNKNOWN3: u32 = 0x100;
    pub const SUPPORTS_ASSET_BUNDLE: u32 = 0x200;
}

/// Configuration of the endpoint. Paths are kept as text.
#[derive(Clone)]
pub struct AirDropConfig {
    pub host_name: String,
    pub computer_name: String,
    pub computer_model: String,
    pub port: u16,
    pub airdrop_dir: String,
    pub service_id: String,
    pub email: Vec<String>,
    pub phone: Vec<String>,
    pub debug: bool,
    pub debug_dir: String,
    pub interface: String,
    pub flags: u32,
    pub root_ca_file: String,
    pub key_dir: String,
    pub cert_file: String,
    pub key_file: String,
    pub record_file: String,
    pub record_data: Option<Vec<u8>>,
}

/// The bytes of an optional record.
pub open spec fn record_view(r: Option<Vec<u8>>) -> Option<Seq<u8>> {
    match r {
        Some(v) => Some(v@),
        None => None,
    }
}

/// `name` appended to directory `dir` as a path component: a separator is
/// put between them unless `dir` is empty or already ends with one.
pub open spec fn path_join(dir: Seq<char>, name: Seq<char>) -> Seq<char> {
    if dir.len() == 0 {
        name
    } else if dir.last() == '/' {
        dir + name
    } else {
        dir + seq!['/'] + name
    }
}

/// Append path component `name` to `dir`.
pub fn join_path(dir: &str, name: &str) -> (r: String)
    ensures
        r@ == path_join(dir@, name@),
{
    let n = dir.unicode_len();
    let mut r = String::from_str(dir);
    if n > 0 && dir.get_char(n - 1) != '/' {
        r.append("/");
        proof {
            reveal_strlit("/");
        }
    }
    r.append(name);
    r
}

/// The host name of this machine, lossily decoded; `None` when the system
/// does not give it. Calls `hostname::get`; nothing is stated of the name,
/// which is the machine's.
#[verifier::external_body]
fn system_host_name() -> Option<String> {
    match hostname::get() {
        Ok(h) => Some(h.to_string_lossy().into_owned()),
        Err(_) => None,
    }
}

/// Eight bytes from the operating system's random source, read by
/// `rand::RngCore::try_fill_bytes` on `rand::rngs::OsRng`, as a
/// little-endian `u64`; `None` when the source reports an error. Nothing is
/// stated of the value or of when the source fails: both are the machine's.
#[verifier::external_body]
fn os_random_u64() -> Option<u64> {
    let mut b = [0u8; 8];
    match rand::RngCore::try_fill_bytes(&mut rand::rngs::OsRng, &mut b) {
        Ok(()) => Some(u64::from_le_bytes(b)),
        Err(_) => None,
    }
}

/// Why no configuration could be made.
#[derive(Debug, Clone, Copy, PartialEq, Eq, Structural)]
pub enum ConfigError {
    /// No service id was given and the system's random source failed.
    NoRandomSource,
}

/// The low 48 bits of `v` as twelve lowercase hex digits, most significant
/// first.
pub open spec fn spec_service_id(v: u64) -> Seq<char> {
    let x = (v as int) % 0x1_0000_0000_0000;
    Seq::new(12, |i: int| hex_char((x / pow16(11 - i)) % 16))
}

/// 16 to the power `n`.
pub open spec fn pow16(n: int) -> int
    decreases n,
{
    if n <= 0 { 1 } else { 16 * pow16(n - 1) }
}

proof fn lemma_pow16_pos(n: int)
    ensures
        pow16(n) >= 1,
    decreases n,
{
    if n > 0 {
        lemma_pow16_pos(n - 1);
    }
}

/// The service id of random value `v`: its low 48 bits in hex.
pub fn service_id_from(v: u64) -> (s: String)
    ensures
        s@ == spec_service_id(v),
{
    let x = v & 0xFFFF_FFFF_FFFF;
    assert(x == v % 0x1_0000_0000_0000) by (bit_vector)
        requires
            x == v & 0xFFFF_FFFF_FFFF,
    ;
    let mut s = String::new();
    let mut i: usize = 0;
    let mut div: u64 = 0x1000_0000_0000;
    assert(div == pow16(11)) by {
        reveal_with_fuel(pow16, 12);
    }
    while i < 12
        invariant
            i <= 12,
            x < 0x1_0000_0000_0000,
            x as int == (v as int) % 0x1_0000_0000_0000,
            div as int == pow16(11 - i),
            div >= 1,
            s@ == Seq::new(i as nat, |j: int| hex_char((x as int / pow16(11 - j)) % 16)),
        decreases 12 - i,
    {
        let d = ((x / div) % 16) as u8;
        s.append(crate::text::digit_str(d));
        proof {
            assert(s@ =~= Seq::new((i + 1) as nat, |j: int| hex_char((x as int / pow16(11 - j)) % 16)));
        }
        if i < 11 {
            assert(pow16(11 - i) == 16 * pow16(11 - i - 1));
            proof {
                lemma_pow16_pos(11 - i - 1);
            }
            div = div / 16;
        }
        i += 1;
    }
    s
}

/// A local interface address as the system lists it.
#[derive(Clone, Debug)]
pub struct InterfaceAddr {
    pub name: String,
    pub ip: IpAddress,
}

/// The address is the unspecified one (0.0.0.0 or ::).
pub open spec fn is_unspecified(ip: IpAddress) -> bool {
    match ip {
        IpAddress::V4(a) => a@ == seq![0u8, 0u8, 0u8, 0u8],
        IpAddress::V6(s) => s@ == seq![0u16, 0u16, 0u16, 0u16, 0u16, 0u16, 0u16, 0u16],
    }
}

/// The address is IPv6 link-local (fe80::/10).
pub open spec fn is_link_local_v6(ip: IpAddress) -> bool {
    match ip {
        IpAddress::V6(s) => s@[0] & 0xffc0 == 0xfe80,
        IpAddress::V4(_) => false,
    }
}

/// The address of interface `name` AirDrop uses, among `ifaces`: with
/// `ipv6`, the first link-local IPv6 address, else its first IPv6 address;
/// without, its first IPv4 address.
pub open spec fn spec_ip_for_interface(ifaces: Seq<InterfaceAddr>, name: Seq<char>, ipv6: bool) -> Option<IpAddress>
    decreases ifaces.len(),
{
    if ifaces.len() == 0 {
        None
    } else {
        let f = ifaces[0];
        let rest = spec_ip_for_interface(ifaces.drop_first(), name, ipv6);
        if f.name@ != name {
            rest
        } else if ipv6 {
            match f.ip {
                IpAddress::V6(_) => if is_link_local_v6(f.ip) {
                    Some(f.ip)
                } else {
                    match rest {
                        Some(r) => if is_link_local_v6(r) { Some(r) } else { Some(f.ip) },
                        None => Some(f.ip),
                    }
                },
                IpAddress::V4(_) => rest,
            }
        } else {
            match f.ip {
                IpAddress::V4(_) => Some(f.ip),
                IpAddress::V6(_) => rest,
            }
        }
    }
}

/// The IP address of interface `interface_name` among `ifaces`.
pub fn get_ip_for_interface(ifaces: &[InterfaceAddr], interface_name: &str, ipv6: bool) -> (r: Option<IpAddress>)
    ensures
        r == spec_ip_for_interface(ifaces@, interface_name@, ipv6),
    decreases ifaces@.len(),
{
    if ifaces.len() == 0 {
        return None;
    }
    let f = &ifaces[0];
    let rest = get_ip_for_interface(vstd::slice::slice_subrange(ifaces, 1, ifaces.len()), interface_name, ipv6);
    assert(ifaces@.subrange(1, ifaces@.len() as int) =~= ifaces@.drop_first());
    if !str_eq(f.name.as_str(), interface_name) {
        return rest;
    }
    if ipv6 {
        match f.ip {
            IpAddress::V6(s) => {
                if s[0] & 0xffc0 == 0xfe80 {
                    Some(f.ip)
                } else {
                    match rest {
                        Some(r) => if link_local(r) {
                            Some(r)
                        } else {
                            Some(f.ip)
                        },
                        None => Some(f.ip),
                    }
                }
            },
            IpAddress::V4(_) => rest,
        }
    } else {
        match f.ip {
            IpAddress::V4(_) => Some(f.ip),
            IpAddress::V6(_) => rest,
        }
    }
}

fn link_local(ip: IpAddress) -> (r: bool)
    ensures
        r == is_link_local_v6(ip),
{
    match ip {
        IpAddress::V6(s) => s[0] & 0xffc0 == 0xfe80,
        IpAddress::V4(_) => false,
    }
}

fn unspecified(ip: IpAddress) -> (r: bool)
    ensures
        r == is_unspecified(ip),
{
    match ip {
        IpAddress::V4(a) => {
            let r = a[0] == 0 && a[1] == 0 && a[2] == 0 && a[3] == 0;
            assert(r == (a@ =~= seq![0u8, 0u8, 0u8, 0u8]));
            r
        },
        IpAddress::V6(s) => {
            let r = s[0] == 0 && s[1] == 0 && s[2] == 0 && s[3] == 0 && s[4] == 0 && s[5] == 0 && s[6] == 0 && s[7] == 0;
            assert(r == (s@ =~= seq![0u16, 0u16, 0u16, 0u16, 0u16, 0u16, 0u16, 0u16]));
            r
        },
    }
}

/// Whether `a` and `b` hold the same characters.
pub fn str_eq(a: &str, b: &str) -> (r: bool)
    ensures
        r == (a@ == b@),
{
    let n = a.unicode_len();
    if n != b.unicode_len() {
        return false;
    }
    let mut i: usize = 0;
    while i < n
        invariant
            n == a@.len(),
            n == b@.len(),
            i <= n,
            forall|j: int| 0 <= j < i ==> a@[j] == b@[j],
        decreases n - i,
    {
        if a.get_char(i) != b.get_char(i) {
            return false;
        }
        i += 1;
    }
    assert(a@ =~= b@);
    true
}

/// An interface with this name has a usable address: IPv4, or IPv6 other
/// than `::`.
pub open spec fn has_ip(ifaces: Seq<InterfaceAddr>, name: Seq<char>) -> bool {
    exists|i: int| 0 <= i < ifaces.len() && #[trigger] ifaces[i].name@ == name && match ifaces[i].ip {
        IpAddress::V4(_) => true,
        IpAddress::V6(_) => !is_unspecified(ifaces[i].ip),
    }
}

/// A Wi-Fi interface name: starting with "wl" (which covers "wlan0").
pub open spec fn is_wifi_name(name: Seq<char>) -> bool {
    name.len() >= 2 && name[0] == 'w' && name[1] == 'l'
}

/// The interface AirDrop should use among `ifaces`: `awdl0` when it has an
/// address, else the first Wi-Fi interface with an address, else the first
/// interface other than `lo` with a usable address, else `awdl0`.
pub open spec fn spec_detect_interface(ifaces: Seq<InterfaceAddr>) -> Seq<char> {
    if has_ip(ifaces, "awdl0"@) {
        "awdl0"@
    } else if exists|i: int| 0 <= i < ifaces.len() && is_wifi_name(#[trigger] ifaces[i].name@) && has_ip(ifaces, ifaces[i].name@) {
        let i = choose|i: int|
            0 <= i < ifaces.len() && is_wifi_name(#[trigger] ifaces[i].name@) && has_ip(ifaces, ifaces[i].name@)
                && forall|j: int| 0 <= j < i ==> !(is_wifi_name(#[trigger] ifaces[j].name@) && has_ip(ifaces, ifaces[j].name@));
        ifaces[i].name@
    } else if exists|i: int| 0 <= i < ifaces.len() && #[trigger] ifaces[i].name@ != "lo"@ && !is_unspecified(ifaces[i].ip) {
        let i = choose|i: int|
            0 <= i < ifaces.len() && #[trigger] ifaces[i].name@ != "lo"@ && !is_unspecified(ifaces[i].ip)
                && forall|j: int| 0 <= j < i ==> !(#[trigger] ifaces[j].name@ != "lo"@ && !is_unspecified(ifaces[j].ip));
        ifaces[i].name@
    } else {
        "awdl0"@
    }
}

fn has_ip_exec(ifaces: &[InterfaceAddr], name: &str) -> (r: bool)
    ensures
        r == has_ip(ifaces@, name@),
{
    let mut i: usize = 0;
    while i < ifaces.len()
        invariant
            i <= ifaces@.len(),
            forall|j: int| 0 <= j < i ==> !(#[trigger] ifaces@[j].name@ == name@ && match ifaces@[j].ip {
                IpAddress::V4(_) => true,
                IpAddress::V6(_) => !is_unspecified(ifaces@[j].ip),
            }),
        decreases ifaces@.len() - i,
    {
        let usable = match ifaces[i].ip {
            IpAddress::V4(_) => true,
            IpAddress::V6(_) => !unspecified(ifaces[i].ip),
        };
        if usable && str_eq(ifaces[i].name.as_str(), name) {
            return true;
        }
        i += 1;
    }
    false
}

fn wifi_name(name: &str) -> (r: bool)
    ensures
        r == is_wifi_name(name@),
{
    name.unicode_len() >= 2 && name.get_char(0) == 'w' && name.get_char(1) == 'l'
}

/// Choose the interface AirDrop should use among `ifaces`.
pub fn detect_airdrop_interface(ifaces: &[InterfaceAddr]) -> (r: String)
    ensures
        r@ == spec_detect_interface(ifaces@),
{
    proof {
        reveal_strlit("awdl0");
        reveal_strlit("lo");
    }
    if has_ip_exec(ifaces, "awdl0") {
        return String::from_str("awdl0");
    }
    let mut i: usize = 0;
    while i < ifaces.len()
        invariant
            i <= ifaces@.len(),
            !has_ip(ifaces@, "awdl0"@),
            forall|j: int| 0 <= j < i ==> !(is_wifi_name(#[trigger] ifaces@[j].name@) && has_ip(ifaces@, ifaces@[j].name@)),
        decreases ifaces@.len() - i,
    {
        if wifi_name(ifaces[i].name.as_str()) && has_ip_exec(ifaces, ifaces[i].name.as_str()) {
            let r = ifaces[i].name.clone();
            proof {
                let ii = i as int;
                assert(0 <= ii < ifaces@.len() && is_wifi_name(ifaces@[ii].name@) && has_ip(ifaces@, ifaces@[ii].name@)
                    && forall|j: int| 0 <= j < ii ==> !(is_wifi_name(#[trigger] ifaces@[j].name@) && has_ip(ifaces@, ifaces@[j].name@)));
                let k = choose|k: int|
                    0 <= k < ifaces@.len() && is_wifi_name(#[trigger] ifaces@[k].name@) && has_ip(ifaces@, ifaces@[k].name@)
                        && forall|j: int| 0 <= j < k ==> !(is_wifi_name(#[trigger] ifaces@[j].name@) && has_ip(ifaces@, ifaces@[j].name@));
                assert(k == ii) by {
                    if k < ii {
                        assert(!(is_wifi_name(ifaces@[k].name@) && has_ip(ifaces@, ifaces@[k].name@)));
                    } else if ii < k {
                        assert(!(is_wifi_name(ifaces@[ii].name@) && has_ip(ifaces@, ifaces@[ii].name@)));
                    }
                }
            }
            return r;
        }
        i += 1;
    }
    let mut i: usize = 0;
    while i < ifaces.len()
        invariant
            i <= ifaces@.len(),
            !has_ip(ifaces@, "awdl0"@),
            forall|j: int| 0 <= j < ifaces@.len() ==> !(is_wifi_name(#[trigger] ifaces@[j].name@) && has_ip(ifaces@, ifaces@[j].name@)),
            forall|j: int| 0 <= j < i ==> !(#[trigger] ifaces@[j].name@ != "lo"@ && !is_unspecified(ifaces@[j].ip)),
        decreases ifaces@.len() - i,
    {
        if !str_eq(ifaces[i].name.as_str(), "lo") && !unspecified(ifaces[i].ip) {
            let r = ifaces[i].name.clone();
            proof {
                let ii = i as int;
                assert(0 <= ii < ifaces@.len() && ifaces@[ii].name@ != "lo"@ && !is_unspecified(ifaces@[ii].ip)
                    && forall|j: int| 0 <= j < ii ==> !(#[trigger] ifaces@[j].name@ != "lo"@ && !is_unspecified(ifaces@[j].ip)));
                let k = choose|k: int|
                    0 <= k < ifaces@.len() && #[trigger] ifaces@[k].name@ != "lo"@ && !is_unspecified(ifaces@[k].ip)
                        && forall|j: int| 0 <= j < k ==> !(#[trigger] ifaces@[j].name@ != "lo"@ && !is_unspecified(ifaces@[j].ip));
                assert(k == ii) by {
                    if k < ii {
                        assert(!(ifaces@[k].name@ != "lo"@ && !is_unspecified(ifaces@[k].ip)));
                    } else if ii < k {
                        assert(!(ifaces@[ii].name@ != "lo"@ && !is_unspecified(ifaces@[ii].ip)));
                    }
                }
            }
            return r;
        }
        i += 1;
    }
    String::from_str("awdl0")
}

/// Receiver flags this endpoint announces: mixed types and discover.
pub open spec fn default_flags() -> u32 {
    AirDropReceiverFlags::SUPPORTS_MIXED_TYPES | AirDropReceiverFlags::SUPPORTS_DISCOVER_MAYBE
}

impl AirDropConfig {
    /// A configuration from the given settings, each falling back to its
    /// default: host name of the machine (else "cosmicdrop"), computer name
    /// the host name, model "CosmicDrop", port 8771, directory
    /// `<home>/.opendrop` (home "." when unknown), a random service id, no
    /// addresses, and the interface chosen among `ifaces`. Keys, record and
    /// debug files live under the directory; the validation record is not
    /// read here. It fails only where no service id is given and the
    /// system's random source fails.
    pub fn new(
        host_name: Option<String>,
        computer_name: Option<String>,
        computer_model: Option<String>,
        server_port: Option<u16>,
        airdrop_dir: Option<String>,
        service_id: Option<String>,
        email: Option<Vec<String>>,
        phone: Option<Vec<String>>,
        debug: bool,
        interface: Option<String>,
        home: Option<String>,
        ifaces: &[InterfaceAddr],
    ) -> (r: Result<Self, ConfigError>)
        ensures
            service_id is Some ==> r is Ok,
            r matches Err(e) ==> e == ConfigError::NoRandomSource,
            r matches Ok(c) ==> ({
                &&& host_name matches Some(h) ==> c.host_name@ == h@
                &&& computer_name matches Some(n) ==> c.computer_name@ == n@
                &&& computer_name is None ==> c.computer_name@ == c.host_name@
                &&& c.computer_model@ == (match computer_model {
                    Some(m) => m@,
                    None => "CosmicDrop"@,
                })
                &&& c.port == (match server_port {
                    Some(p) => p,
                    None => 8771u16,
                })
                &&& c.airdrop_dir@ == (match airdrop_dir {
                    Some(d) => d@,
                    None => path_join(
                        match home {
                            Some(h) => h@,
                            None => "."@,
                        },
                        ".opendrop"@,
                    ),
                })
                &&& service_id matches Some(s) ==> c.service_id@ == s@
                &&& service_id is None ==> exists|v: u64| c.service_id@ == spec_service_id(v)
                &&& c.email@ == (match email {
                    Some(e) => e@,
                    None => Seq::<String>::empty(),
                })
                &&& c.phone@ == (match phone {
                    Some(p) => p@,
                    None => Seq::<String>::empty(),
                })
                &&& c.debug == debug
                &&& c.debug_dir@ == path_join(c.airdrop_dir@, "debug"@)
                &&& c.interface@ == (match interface {
                    Some(i) => i@,
                    None => spec_detect_interface(ifaces@),
                })
                &&& c.flags == default_flags()
                &&& c.root_ca_file@ == "apple_root_ca.pem"@
                &&& c.key_dir@ == path_join(c.airdrop_dir@, "keys"@)
                &&& c.cert_file@ == path_join(c.key_dir@, "certificate.pem"@)
                &&& c.key_file@ == path_join(c.key_dir@, "key.pem"@)
                &&& c.record_file@ == path_join(c.key_dir@, "validation_record.cms"@)
                &&& c.record_data is None
            }),
    {
        let host_name = match host_name {
            Some(h) => h,
            None => match system_host_name() {
                Some(h) => h,
                None => String::from_str("cosmicdrop"),
            },
        };
        let computer_name = match computer_name {
            Some(n) => n,
            None => host_name.clone(),
        };
        let computer_model = match computer_model {
            Some(m) => m,
            None => String::from_str("CosmicDrop"),
        };
        let port = match server_port {
            Some(p) => p,
            None => 8771,
        };
        let service_id = match service_id {
            Some(s) => s,
            None => match os_random_u64() {
                Some(v) => service_id_from(v),
                None => return Err(ConfigError::NoRandomSource),
            },
        };
        let airdrop_dir = match airdrop_dir {
            Some(d) => d,
            None => match home {
                Some(h) => join_path(h.as_str(), ".opendrop"),
                None => join_path(".", ".opendrop"),
            },
        };
        let debug_dir = join_path(airdrop_dir.as_str(), "debug");
        let interface = match interface {
            Some(i) => i,
            None => detect_airdrop_interface(ifaces),
        };
        let key_dir = join_path(airdrop_dir.as_str(), "keys");
        let cert_file = join_path(key_dir.as_str(), "certificate.pem");
        let key_file = join_path(key_dir.as_str(), "key.pem");
        let record_file = join_path(key_dir.as_str(), "validation_record.cms");
        let email = match email {
            Some(e) => e,
            None => Vec::new(),
        };
        let phone = match phone {
            Some(p) => p,
            None => Vec::new(),
        };
        Ok(AirDropConfig {
            host_name,
            computer_name,
            computer_model,
            port,
            airdrop_dir,
            service_id,
            email,
            phone,
            debug,
            debug_dir,
            interface,
            flags: AirDropReceiverFlags::SUPPORTS_MIXED_TYPES | AirDropReceiverFlags::SUPPORTS_DISCOVER_MAYBE,
            root_ca_file: String::from_str("apple_root_ca.pem"),
            key_dir,
            cert_file,
            key_file,
            record_file,
            record_data: None,
        })
    }
}

} // verus!
