//! What names, paths, numbers and settings come to, and what is saved of what clients hold.

use crate::client::ClientState;
use crate::fs::path_fileid;
use crate::lock::{LockEntry, LockState};
use crate::open::{OpenManager, OpenState};
use crate::persistence::{
    client_file, file_in, hex_digit, hex_text, instance_of, is_record_name, lock_file, open_file,
    record_paths, Machine, PersistedClient, PersistedLock, PersistedOpen, Snapshot,
    StatePersistenceManager,
};
use crate::tcp::{
    bind_parts, export_path, first_of, flag_told, host_ip, number_told, size_told,
    without_end_slashes, without_start_slashes, BindFault, TcpTuningConfig,
};
use crate::text::{
    child_path, decimal, decimal_text, fnv1a, is_name, number_in, number_up_to, text_bytes,
    unsigned_part,
};
use crate::time::Duration;
use crate::types::{FileStatus, FileType};
use vstd::prelude::*;

verus! {

// ---------------------------------------------------------------------------
// Names and paths
// ---------------------------------------------------------------------------

/// A name is anything but the empty one, the two that stand for the directory itself and the one
/// above, and those with a slash or a zero in them.
pub proof fn law_names_are_all_but_a_few(name: Seq<u8>)
    ensures
        is_name(name) <==> {
            &&& name.len() > 0
            &&& forall|i: int| 0 <= i < name.len() ==> #[trigger] name[i] != 47 && name[i] != 0
            &&& !(name.len() == 1 && name[0] == 46)
            &&& !(name.len() == 2 && name[0] == 46 && name[1] == 46)
        },
{
    if name.len() == 1 && name[0] == 46 {
        assert(name =~= seq![46u8]);
    }
    if name.len() == 2 && name[0] == 46 && name[1] == 46 {
        assert(name =~= seq![46u8, 46u8]);
    }
    if is_name(name) {
        assert forall|i: int| 0 <= i < name.len() implies #[trigger] name[i] != 47 && name[i]
            != 0 by {
            assert(name.contains(name[i]));
        }
    }
}

/// The path of an entry is that of its directory, a slash and its name, with no second slash behind
/// the root.
pub proof fn law_entry_lies_behind_its_directory(dir: Seq<char>, name: Seq<char>)
    ensures
        child_path(dir, name).len() == dir.len() + name.len() + if dir == seq!['/'] {
            0int
        } else {
            1int
        },
        child_path(dir, name).take(dir.len() as int) == dir,
        child_path(dir, name).skip(child_path(dir, name).len() - name.len()) == name,
        child_path(dir, name)[child_path(dir, name).len() - name.len() - 1] == '/',
{
    let p = child_path(dir, name);
    assert(p.take(dir.len() as int) =~= dir);
    assert(p.skip(p.len() - name.len()) =~= name);
}

/// A file that the storage has no number for gets one from its path: each byte of the path is mixed
/// in and the whole is multiplied, and the number is never 0.
pub proof fn law_number_is_made_from_the_path(bytes: Seq<u8>, next: u8, path: Seq<char>)
    ensures
        fnv1a(Seq::empty()) == 0xcbf2_9ce4_8422_2325,
        fnv1a(bytes.push(next)) == ((fnv1a(bytes) ^ (next as u64)) * 0x100_0000_01b3)
            % 0x1_0000_0000_0000_0000,
        path_fileid(path) == fnv1a(text_bytes(path)) % 0x8000_0000_0000_0000 + 1,
{
    assert(bytes.push(next).drop_last() =~= bytes);
}

// ---------------------------------------------------------------------------
// Numbers
// ---------------------------------------------------------------------------

/// A number is read from its digits, with or without a sign in front, where it is not too great;
/// nothing else is read as a number.
pub proof fn law_number_is_read_from_its_digits(n: nat, most: u64, s: Seq<u8>, i: int)
    ensures
        n <= most ==> number_up_to(decimal(n), most) == Some(n as u64),
        n > most ==> number_up_to(decimal(n), most) is None,
        n <= most ==> number_up_to(seq![43u8] + decimal(n), most) == Some(n as u64),
        0 < i < s.len() && !(48 <= s[i] <= 57) ==> number_up_to(s, most) is None,
        0 < s.len() && !(48 <= s[0] <= 57) && s[0] != 43 ==> number_up_to(s, most) is None,
        s.len() == 0 ==> number_up_to(s, most) is None,
{
    reveal(number_up_to);
    crate::text::law_decimal_reads_back(n);
    let d = decimal(n);
    assert(d[0] != 43);
    assert(unsigned_part(d) == d);
    assert((seq![43u8] + d).skip(1) =~= d);
    if 0 < i < s.len() && !(48 <= s[i] <= 57) {
        let u = unsigned_part(s);
        if s[0] == 43 {
            assert(u[i - 1] == s[i]);
        } else {
            assert(u[i] == s[i]);
        }
    }
    if 0 < s.len() && !(48 <= s[0] <= 57) && s[0] != 43 {
        assert(unsigned_part(s)[0] == s[0]);
    }
}

/// The digits of a number are the same as text and as bytes.
pub proof fn law_digits_are_the_same_as_text_and_bytes(n: nat, i: int)
    ensures
        decimal_text(n).len() == decimal(n).len(),
        0 <= i < decimal(n).len() ==> decimal_text(n)[i] as u32 == decimal(n)[i] as u32,
    decreases n,
{
    if n >= 10 {
        law_digits_are_the_same_as_text_and_bytes(n / 10, i);
    }
}

/// A number of which each byte is written as two of the sixteen digits, the greater half first.
pub proof fn law_bytes_are_written_by_two_digits(b: Seq<u8>, i: int)
    requires
        0 <= i < b.len(),
    ensures
        hex_text(b).len() == 2 * b.len(),
        hex_text(b)[2 * i] == hex_digit(b[i] / 16),
        hex_text(b)[2 * i + 1] == hex_digit(b[i] % 16),
        hex_digit(0) == '0',
        hex_digit(9) == '9',
        hex_digit(10) == 'a',
        hex_digit(15) == 'f',
{
}

// ---------------------------------------------------------------------------
// Settings
// ---------------------------------------------------------------------------

/// An address to listen at is what stands before the first colon, and the port is the number behind
/// it.
pub proof fn law_address_is_split_at_its_first_colon(host: Seq<u8>, port: nat)
    requires
        !host.contains(58),
    ensures
        port <= 65535 ==> bind_parts(host + seq![58u8] + decimal(port)) == Ok::<
            (int, u16),
            BindFault,
        >((host.len() as int, port as u16)),
        port > 65535 ==> bind_parts(host + seq![58u8] + decimal(port)) == Err::<
            (int, u16),
            BindFault,
        >(BindFault::BadPort),
        bind_parts(host) == Err::<(int, u16), BindFault>(BindFault::NoPort),
{
    let s = host + seq![58u8] + decimal(port);
    first_is(s, 58, host.len() as int, 0);
    assert(s.skip(host.len() as int + 1) =~= decimal(port));
    law_number_is_read_from_its_digits(port, u32::MAX as u64, s, 0);
    none_is(host, 58, 0);
}

proof fn first_is(s: Seq<u8>, c: u8, at: int, from: int)
    requires
        0 <= from <= at < s.len(),
        s[at] == c,
        forall|i: int| 0 <= i < at ==> #[trigger] s[i] != c,
    ensures
        first_of(s, c, from) == Some(at),
    decreases at - from,
{
    if from < at {
        first_is(s, c, at, from + 1);
    }
}

proof fn none_is(s: Seq<u8>, c: u8, from: int)
    requires
        0 <= from,
        !s.contains(c),
    ensures
        first_of(s, c, from) is None,
    decreases s.len() - from,
{
    if from < s.len() {
        assert(s[from] != c);
        none_is(s, c, from + 1);
    }
}

/// The addresses that are tried for a host lie next to each other: a fixed start, and the number of
/// the host as two numbers below 256.
pub proof fn law_host_has_its_own_address(hostnum: u16)
    ensures
        host_ip(hostnum) == seq!['1', '2', '7', '.', '8', '8', '.'] + decimal_text(
            (hostnum / 256) as nat,
        ) + seq!['.'] + decimal_text((hostnum % 256) as nat),
{
}

/// What is exported is found behind one slash: those in front and behind are left out, and nothing
/// else.
pub proof fn law_export_stands_behind_one_slash(name: Seq<char>, front: nat, back: nat)
    requires
        name.len() > 0,
        name[0] != '/',
        name.last() != '/',
    ensures
        export_path(
            Seq::new(front, |i: int| '/') + name + Seq::new(back, |i: int| '/'),
        ) == seq!['/'] + name,
        export_path(Seq::new(front, |i: int| '/')) == seq!['/'],
{
    let f = Seq::new(front, |i: int| '/');
    ends_left_out(f + name, back);
    assert((f + name).last() == name.last());
    starts_left_out(name, front);
    let none = Seq::<char>::empty();
    ends_left_out(none, front);
    assert(none + f =~= f);
    assert(seq!['/'] + none =~= seq!['/']);
}

proof fn ends_left_out(s: Seq<char>, n: nat)
    requires
        s.len() > 0 ==> s.last() != '/',
    ensures
        without_end_slashes(s + Seq::new(n, |i: int| '/')) == s,
    decreases n,
{
    let t = s + Seq::new(n, |i: int| '/');
    if n == 0 {
        assert(t =~= s);
    } else {
        ends_left_out(s, (n - 1) as nat);
        assert(t.drop_last() =~= s + Seq::new((n - 1) as nat, |i: int| '/'));
        assert(t.last() == '/');
    }
}

proof fn starts_left_out(s: Seq<char>, n: nat)
    requires
        s.len() > 0,
        s[0] != '/',
    ensures
        without_start_slashes(Seq::new(n, |i: int| '/') + s) == s,
    decreases n,
{
    let t = Seq::new(n, |i: int| '/') + s;
    if n == 0 {
        assert(t =~= s);
    } else {
        starts_left_out(s, (n - 1) as nat);
        assert(t.skip(1) =~= Seq::new((n - 1) as nat, |i: int| '/') + s);
        assert(t[0] == '/');
    }
}

/// A setting that is on or off is on where it says so and off where it says so, and is not given
/// where it says anything else.
pub proof fn law_setting_is_what_it_says(text: String)
    ensures
        flag_told(Some(text)) == Some(true) <==> text_bytes(text@) == seq![
            116u8,
            114u8,
            117u8,
            101u8,
        ],
        flag_told(Some(text)) == Some(false) <==> text_bytes(text@) == seq![
            102u8,
            97u8,
            108u8,
            115u8,
            101u8,
        ],
        flag_told(None) is None,
        size_told(None) is None,
        number_told(None) is None,
        number_told(Some(text)) == number_in(text_bytes(text@)),
        size_told(Some(text)) is Some <==> number_up_to(
            text_bytes(text@),
            usize::MAX as u64,
        ) is Some,
        size_told(Some(text)) matches Some(n) ==> number_up_to(text_bytes(text@), usize::MAX as u64)
            == Some(n as u64),
{
    reveal(number_up_to);
    let (t, f) = (
        seq![116u8, 114u8, 117u8, 101u8],
        seq![102u8, 97u8, 108u8, 115u8, 101u8],
    );
    assert(t.len() != f.len());
}

/// Where nothing else is set, half a mebibyte is kept for what is sent and for what is received,
/// nothing waits to be sent, and a connection that is silent is tried after a minute, six times, at
/// ten seconds' distance.
pub proof fn law_usual_settings()
    ensures
        TcpTuningConfig::usual().send_buffer_size == 524288,
        TcpTuningConfig::usual().recv_buffer_size == 524288,
        TcpTuningConfig::usual().nodelay,
        TcpTuningConfig::usual().quickack,
        TcpTuningConfig::usual().keepalive,
        TcpTuningConfig::usual().keepalive_idle_secs == 60,
        TcpTuningConfig::usual().keepalive_interval_secs == 10,
        TcpTuningConfig::usual().keepalive_probe_count == 6,
{
}

// ---------------------------------------------------------------------------
// What is saved
// ---------------------------------------------------------------------------

/// A server is saved under the name that it was given; else under that of its machine, unless that
/// is empty; else under its process where there may be several on the machine; else under one name.
pub proof fn law_server_is_saved_under_its_name(given: Option<String>, machine: Machine)
    ensures
        given is Some ==> instance_of(given, machine) == given->Some_0@,
        given is None && machine.hostname is Some && machine.hostname->Some_0@.len() > 0
            ==> instance_of(given, machine) == machine.hostname->Some_0@,
        given is None && (machine.hostname is None || machine.hostname->Some_0@.len() == 0)
            && machine.multi_instance ==> instance_of(given, machine) == seq![
            'n',
            'o',
            'd',
            'e',
        ] + decimal_text(machine.process_id as nat),
        given is None && (machine.hostname is None || machine.hostname->Some_0@.len() == 0)
            && !machine.multi_instance ==> instance_of(given, machine) == seq![
            'd',
            'e',
            'f',
            'a',
            'u',
            'l',
            't',
        ],
{
    reveal_strlit("node");
    reveal_strlit("default");
    assert("node"@ =~= seq!['n', 'o', 'd', 'e']);
    assert("default"@ =~= seq!['d', 'e', 'f', 'a', 'u', 'l', 't']);
}

/// What is saved lies in the directory of its kind, under its number, and ends alike.
pub proof fn law_saved_file_lies_under_its_number(
    dir: Seq<char>,
    name: Seq<char>,
    clientid: u64,
    stateid: Seq<u8>,
    index: nat,
)
    ensures
        file_in(dir, name) == dir + seq!['/'] + name,
        client_file(dir, clientid) == dir + seq!['/'] + decimal_text(clientid as nat) + seq![
            '.',
            'j',
            's',
            'o',
            'n',
        ],
        open_file(dir, stateid) == dir + seq!['/'] + hex_text(stateid) + seq![
            '.',
            'j',
            's',
            'o',
            'n',
        ],
        lock_file(dir, stateid, index) == dir + seq!['/'] + hex_text(stateid) + seq!['_']
            + decimal_text(index) + seq!['.', 'j', 's', 'o', 'n'],
{
    reveal_strlit("/");
    reveal_strlit(".json");
    reveal_strlit("_");
    assert("/"@ =~= seq!['/']);
    assert("_"@ =~= seq!['_']);
    assert(".json"@ =~= seq!['.', 'j', 's', 'o', 'n']);
}

/// Of what lies in a directory, that is read back which is a file and ends as what is saved does, in
/// its order.
pub proof fn law_saved_files_are_read_back(
    dir: Seq<char>,
    entries: Seq<FileStatus>,
    next: FileStatus,
)
    ensures
        record_paths(dir, Seq::empty()).len() == 0,
        ({
            let name = text_bytes(next.name@);
            let saved = next.file_type == FileType::File && name.len() >= 5 && name[name.len() - 5]
                == 46 && name[name.len() - 4] == 106 && name[name.len() - 3] == 115
                && name[name.len() - 2] == 111 && name[name.len() - 1] == 110;
            record_paths(dir, entries.push(next)) == if saved {
                record_paths(dir, entries).push(file_in(dir, next.name@))
            } else {
                record_paths(dir, entries)
            }
        }),
{
    assert(entries.push(next).drop_last() =~= entries);
    let name = text_bytes(next.name@);
    if name.len() >= 5 {
        let end = name.skip(name.len() - 5);
        assert(end[0] == name[name.len() - 5] && end[1] == name[name.len() - 4] && end[2]
            == name[name.len() - 3] && end[3] == name[name.len() - 2] && end[4] == name[name.len()
            - 1]);
        if is_record_name(name) {
            assert(end[0] == 46 && end[1] == 106 && end[2] == 115 && end[3] == 111 && end[4]
                == 110);
        }
        if end[0] == 46 && end[1] == 106 && end[2] == 115 && end[3] == 111 && end[4] == 110 {
            assert(end =~= seq![46u8, 106u8, 115u8, 111u8, 110u8]);
        }
    }
}

/// A client is saved with its name, its number and whether it is confirmed, and with the time at
/// which its lease ends: as long from now as the lease still lasts, in whole seconds.
pub proof fn law_saved_client_is_as_it_was(
    p: PersistedClient,
    c: ClientState,
    now: Duration,
    unix_secs: u64,
)
    requires
        p.is_of(c, now, unix_secs),
        now.nanos >= c.last_renew.nanos,
        (now.nanos - c.last_renew.nanos) / 1_000_000_000 <= unix_secs,
        c.lease_time.nanos / 1_000_000_000 + unix_secs <= u64::MAX,
    ensures
        p.client_owner@ == c.owner.co_ownerid@,
        p.verifier == c.owner.co_verifier,
        p.confirmed == c.confirmed,
        p.lease_expiry == unix_secs - (now.nanos - c.last_renew.nanos) / 1_000_000_000
            + c.lease_time.nanos / 1_000_000_000,
{
}

/// An open file is saved with who has it open and what it may do with it and denies to others.
pub proof fn law_saved_open_file_is_as_it_was(p: PersistedOpen, s: OpenState)
    requires
        p.is_of(s),
    ensures
        p.stateid == s.stateid.other,
        p.clientid == s.clientid,
        p.fileid == s.fileid,
        p.path@ == s.path@,
        p.share_access == s.share_access,
        p.share_deny == s.share_deny,
{
}

/// A lock is saved with who holds it, its file, its kind and its range.
pub proof fn law_saved_lock_is_as_it_was(p: PersistedLock, s: LockState, e: LockEntry)
    requires
        p.is_of(s, e),
    ensures
        p.stateid == s.stateid.other,
        p.clientid == s.owner.clientid,
        p.owner@ == s.owner.owner@,
        p.fileid == e.fileid,
        p.lock_type == e.lock_type.code_of(),
        p.offset == e.offset,
        p.length == e.length,
{
}

/// What is saved at one time is all that clients hold: each client once, each open file and each
/// range that is locked, and when and by whom it was saved. The next time counts one further.
pub proof fn law_all_that_is_held_is_saved(
    before: StatePersistenceManager,
    after: StatePersistenceManager,
    clients: crate::client::ClientManager,
    opens: OpenManager,
    locks: crate::lock::LockManager,
    now: Duration,
    unix_secs: u64,
    process_id: u32,
    r: Option<Snapshot>,
)
    requires
        after.has_saved(&before, &clients, &opens, &locks, now, unix_secs, process_id, r),
        before.recovery_epoch < u64::MAX,
    ensures
        r is Some <==> before.config.enabled,
        r matches Some(saved) ==> {
            &&& saved.clients@.len() == clients.clients@.dom().len()
            &&& forall|i: int|
                0 <= i < saved.clients@.len() ==> ({
                    let id = (#[trigger] saved.clients@[i]).record.clientid;
                    &&& clients.clients@.contains_key(id)
                    &&& saved.clients@[i].record.client_owner@
                        == clients.clients@[id].owner.co_ownerid@
                })
            &&& saved.opens@.len() == opens.states@.dom().len()
            &&& forall|k: u128| #[trigger]
                opens.states@.contains_key(k) ==> exists|i: int|
                    0 <= i < saved.opens@.len() && (#[trigger] saved.opens@[i]).record.is_of(
                        opens.states@[k],
                    )
            &&& saved.meta.record.server_instance_id == process_id
            &&& saved.meta.record.last_shutdown_time == unix_secs
            &&& saved.meta.record.grace_period_secs == 90
            &&& saved.meta.record.recovery_epoch == before.recovery_epoch
            &&& after.recovery_epoch == before.recovery_epoch + 1
        },
{
}

/// Each range that is locked is saved, as it is.
pub proof fn law_each_locked_range_is_saved(
    before: StatePersistenceManager,
    after: StatePersistenceManager,
    clients: crate::client::ClientManager,
    opens: OpenManager,
    locks: crate::lock::LockManager,
    now: Duration,
    unix_secs: u64,
    process_id: u32,
    saved: Snapshot,
    k: u128,
    n: int,
)
    requires
        after.has_saved(
            &before,
            &clients,
            &opens,
            &locks,
            now,
            unix_secs,
            process_id,
            Some(saved),
        ),
        locks.lock_states@.contains_key(k),
        0 <= n < locks.lock_states@[k].lock_entries@.len(),
    ensures
        exists|i: int|
            0 <= i < saved.locks@.len() && (#[trigger] saved.locks@[i]).record.is_of(
                locks.lock_states@[k],
                locks.lock_states@[k].lock_entries@[n],
            ),
{
    let ranges = choose|ranges: Seq<(u128, int)>| #[trigger]
        crate::persistence::all_ranges(&locks, ranges) && before.saves_ranges(
            &locks,
            saved.locks@,
            ranges,
        );
    assert(ranges.contains((k, n)));
    let i = choose|i: int| 0 <= i < ranges.len() && ranges[i] == (k, n);
    assert(before.saves_lock(&locks, saved.locks@[i], ranges[i], i as nat));
}

/// What a server saves lies under its own name: clients, open files and locks in directories of
/// their own, each under its number.
pub proof fn law_saved_things_lie_under_the_name_of_the_server(
    before: StatePersistenceManager,
    after: StatePersistenceManager,
    clients: crate::client::ClientManager,
    opens: OpenManager,
    locks: crate::lock::LockManager,
    now: Duration,
    unix_secs: u64,
    process_id: u32,
    saved: Snapshot,
    i: int,
)
    requires
        before.wf(),
        after.has_saved(
            &before,
            &clients,
            &opens,
            &locks,
            now,
            unix_secs,
            process_id,
            Some(saved),
        ),
    ensures
        ({
            let home = "/.nfs4_state/"@ + before.instance_id@;
            &&& saved.meta.path@ == home + "/recovery.meta"@
            &&& 0 <= i < saved.clients@.len() ==> saved.clients@[i].path@ == home + "/clients/"@
                + decimal_text(saved.clients@[i].record.clientid as nat) + ".json"@
            &&& 0 <= i < saved.opens@.len() ==> saved.opens@[i].path@ == home + "/opens/"@
                + hex_text(saved.opens@[i].record.stateid@) + ".json"@
            &&& 0 <= i < saved.locks@.len() ==> saved.locks@[i].path@ == home + "/locks/"@
                + hex_text(saved.locks@[i].record.stateid@) + "_"@ + decimal_text(i as nat)
                + ".json"@
        }),
{
    reveal_strlit("/.nfs4_state/");
    reveal_strlit("/.nfs4_state");
    reveal_strlit("/");
    reveal_strlit("/clients/");
    reveal_strlit("clients");
    reveal_strlit("/opens/");
    reveal_strlit("opens");
    reveal_strlit("/locks/");
    reveal_strlit("locks");
    reveal_strlit("/recovery.meta");
    reveal_strlit("recovery.meta");
    let home = "/.nfs4_state/"@ + before.instance_id@;
    assert("/.nfs4_state"@ + "/"@ =~= "/.nfs4_state/"@);
    assert(before.state_dir@ =~= home);
    assert("/"@ + "clients"@ + "/"@ =~= "/clients/"@);
    assert("/"@ + "opens"@ + "/"@ =~= "/opens/"@);
    assert("/"@ + "locks"@ + "/"@ =~= "/locks/"@);
    assert("/"@ + "recovery.meta"@ =~= "/recovery.meta"@);
    assert(saved.meta.path@ =~= home + ("/"@ + "recovery.meta"@));
    if 0 <= i < saved.clients@.len() {
        let d = decimal_text(saved.clients@[i].record.clientid as nat);
        assert(saved.clients@[i].path@ =~= home + ("/"@ + "clients"@ + "/"@) + d + ".json"@);
    }
    if 0 <= i < saved.opens@.len() {
        let d = hex_text(saved.opens@[i].record.stateid@);
        assert(before.saves_open(&opens, saved.opens@[i]));
        assert(saved.opens@[i].path@ =~= home + ("/"@ + "opens"@ + "/"@) + d + ".json"@);
    }
    if 0 <= i < saved.locks@.len() {
        let ranges = choose|ranges: Seq<(u128, int)>| #[trigger]
            crate::persistence::all_ranges(&locks, ranges) && before.saves_ranges(
                &locks,
                saved.locks@,
                ranges,
            );
        assert(before.saves_lock(&locks, saved.locks@[i], ranges[i], i as nat));
        let d = hex_text(saved.locks@[i].record.stateid@);
        assert(saved.locks@[i].path@ =~= home + ("/"@ + "locks"@ + "/"@) + d + "_"@
            + decimal_text(i as nat) + ".json"@);
    }
}

} // verus!
