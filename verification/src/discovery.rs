//! Announcing this device on the local network and reading the
//! announcements of others.

use vstd::prelude::*;
use vstd::utf8::encode_utf8;
use vstd::string::*;
use crate::platform::{sanitize_hostname, sanitized_hostname};
use crate::text::{push_char, str_equal};
use crate::views::NearbyDevice;

verus! {

/// The port trusted and pairing connections are accepted on.
pub const TRANSPORT_PORT: u16 = 43_721;

/// The properties another device announces, where present.
pub struct ServiceProperties {
    pub device_id: Option<String>,
    pub service_instance_id: Option<String>,
    pub device_name: Option<String>,
    pub platform: Option<String>,
    pub protocol_version: Option<String>,
}

/// A device found on the network is listed where it announced its id (not
/// this device's), its instance and its name, and speaks protocol 1 (an
/// announcement without a version is version 0); its platform defaults to
/// `unknown`.
pub open spec fn listed(local_device_id: Seq<char>, p: ServiceProperties) -> bool {
    &&& p.device_id matches Some(d) && d@ != local_device_id
    &&& p.service_instance_id is Some
    &&& p.device_name is Some
    &&& p.protocol_version matches Some(v) && v@ == "1"@
}

/// The nearby device an announcement describes, unless it is skipped.
pub fn nearby_from_service(
    local_device_id: &str,
    properties: ServiceProperties,
    addresses: Vec<String>,
    port: u16,
    last_seen_at: String,
) -> (nearby: Option<NearbyDevice>)
    ensures
        nearby is Some <==> listed(local_device_id@, properties),
        nearby matches Some(n) ==> {
            &&& properties.device_id == Some(n.device_id)
            &&& properties.service_instance_id == Some(n.instance_id)
            &&& properties.device_name == Some(n.device_name)
            &&& n.platform@ == match properties.platform {
                Some(p) => p@,
                None => "unknown"@,
            }
            &&& n.addresses == addresses
            &&& n.port == port
            &&& n.last_seen_at == last_seen_at
            &&& !n.paired
        },
{
    let ServiceProperties { device_id, service_instance_id, device_name, platform, protocol_version } = properties;
    let device_id = match device_id {
        Some(d) => d,
        None => return None,
    };
    if str_equal(device_id.as_str(), local_device_id) {
        return None;
    }
    let instance_id = match service_instance_id {
        Some(i) => i,
        None => return None,
    };
    let device_name = match device_name {
        Some(n) => n,
        None => return None,
    };
    let platform = match platform {
        Some(p) => p,
        None => String::from_str("unknown"),
    };
    let supported = match &protocol_version {
        Some(v) => str_equal(v.as_str(), "1"),
        None => false,
    };
    if !supported {
        return None;
    }
    Some(NearbyDevice {
        instance_id,
        device_id,
        device_name,
        platform,
        addresses,
        port,
        last_seen_at,
        paired: false,
    })
}

/// The instance name announced: `AirDrop-` and the first twelve bytes of
/// the instance id, which must end on a character boundary (the characters
/// whose UTF-8 encoding is those twelve bytes).
pub fn instance_name(service_instance_id: &str) -> (name: String)
    requires
        exists|k: int| 0 <= k <= service_instance_id@.len() && #[trigger] encode_utf8(service_instance_id@.take(k)).len() == 12,
    ensures
        exists|k: int| 0 <= k <= service_instance_id@.len() && #[trigger] encode_utf8(service_instance_id@.take(k)).len() == 12
            && name@ == "AirDrop-"@ + service_instance_id@.take(k),
{
    let ghost id = service_instance_id@;
    let chars = crate::text::chars_of(service_instance_id);
    let mut name = String::from_str("AirDrop-");
    let mut bytes: usize = 0;
    let mut i: usize = 0;
    proof {
        assert(id.take(0) =~= Seq::<char>::empty());
    }
    while bytes < 12
        invariant
            chars@ == id,
            id == service_instance_id@,
            exists|k: int| 0 <= k <= id.len() && #[trigger] encode_utf8(id.take(k)).len() == 12,
            i <= id.len(),
            bytes == encode_utf8(id.take(i as int)).len(),
            bytes <= 12,
            name@ == "AirDrop-"@ + id.take(i as int),
        decreases 12 - bytes,
    {
        proof {
            if i == id.len() {
                let k = choose|k: int| 0 <= k <= id.len() && #[trigger] encode_utf8(id.take(k)).len() == 12;
                crate::text::lemma_utf8_prefix_grows(id, k, i as int);
            }
            assert(i < id.len());
            crate::text::lemma_utf8_take_step(id, i as int);
        }
        assert(i < chars.len());
        let width = crate::text::utf8_width(chars[i]);
        proof {
            if bytes + width > 12 {
                let k = choose|k: int| 0 <= k <= id.len() && #[trigger] encode_utf8(id.take(k)).len() == 12;
                if k <= i {
                    crate::text::lemma_utf8_prefix_grows(id, k, i as int);
                } else {
                    crate::text::lemma_utf8_prefix_grows(id, i + 1, k);
                }
            }
        }
        push_char(&mut name, chars[i]);
        proof {
            assert(id.take(i + 1) =~= id.take(i as int).push(chars@[i as int]));
        }
        bytes = bytes + width;
        i = i + 1;
    }
    proof {
        assert(encode_utf8(id.take(i as int)).len() == 12);
    }
    name
}

/// The host name announced: the sanitized device name under `.local.`.
pub fn service_hostname(device_name: &str) -> (host: String)
    ensures
        host@ == sanitized_hostname(device_name@) + ".local."@,
{
    let mut host = sanitize_hostname(device_name);
    host.append(".local.");
    host
}

} // verus!
