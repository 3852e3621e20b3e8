//! The files that stand in for `/etc/hosts` and `/etc/resolv.conf` in a
//! device's namespace.
use vstd::prelude::*;

use crate::addr::IpAddr;
use crate::text::dec;
use crate::topology::types::NodeId;

verus! {

/// A hosts file without entries of its own.
pub const INITIAL_HOSTS: &'static str =
    "# generated by patchbay\n127.0.0.1\tlocalhost\n::1\tlocalhost\n";

/// The resolver configuration before the lab has a name server.
pub const INITIAL_RESOLV_CONF: &'static str =
    "# generated by patchbay\nnameserver 127.0.0.53\n";

/// Name of the resolver configuration.
pub const RESOLV_CONF: &'static str = "resolv.conf";

/// The directory of a lab's files.
pub fn hosts_dir_name(prefix: &str) -> (r: String)
    ensures
        r@ == "patchbay-"@ + prefix@ + "-hosts"@,
{
    let mut s = "patchbay-".to_owned();
    s.append(prefix);
    s.append("-hosts");
    s
}

/// The name of a device's hosts file.
pub fn hosts_file_name(device_id: NodeId) -> (r: String)
    ensures
        r@ == dec(device_id.0 as nat) + ".hosts"@,
{
    let mut s = device_id.text();
    s.append(".hosts");
    s
}

/// A line of a hosts file.
pub fn host_line(name: &str, ip: IpAddr) -> (r: String)
    ensures
        r@ == ip.spec_text() + "\t"@ + name@ + "\n"@,
{
    let mut s = ip.text();
    s.append("\t");
    s.append(name);
    s.append("\n");
    s
}

/// The name server lines, in order.
pub open spec fn nameserver_lines(ips: Seq<IpAddr>) -> Seq<char>
    decreases ips.len(),
{
    if ips.len() == 0 {
        Seq::empty()
    } else {
        nameserver_lines(ips.drop_last()) + ("nameserver "@ + ips.last().spec_text() + "\n"@)
    }
}

/// The resolver configuration with the given name servers.
pub fn resolv_conf(nameservers: &Vec<IpAddr>) -> (r: String)
    ensures
        r@ == "# generated by patchbay\n"@ + nameserver_lines(nameservers@),
{
    let mut lines = String::new();
    let mut i: usize = 0;
    while i < nameservers.len()
        invariant
            i <= nameservers.len(),
            lines@ == nameserver_lines(nameservers@.take(i as int)),
        decreases nameservers.len() - i,
    {
        let mut line = "nameserver ".to_owned();
        line.append(nameservers[i].text().as_str());
        line.append("\n");
        assert(nameservers@.take(i as int + 1).drop_last() =~= nameservers@.take(i as int));
        lines.append(line.as_str());
        i += 1;
    }
    assert(nameservers@.take(nameservers.len() as int) =~= nameservers@);
    let mut s = "# generated by patchbay\n".to_owned();
    s.append(lines.as_str());
    s
}

} // verus!
