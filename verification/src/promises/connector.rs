//! Which Runtime a client talks to.

use vstd::prelude::*;

use crate::client::connector::{advertised_version, capabilities_view, meets, Client, Received};
use crate::client::error::ClientError;
use crate::client::requests::ClientCall;
use crate::identity::DaemonInstanceId;
use crate::protocol::{
    CapabilityVersion, ClientFrame, CommandDisposition, RuntimeDescription, RuntimeIdentity,
    ServerFrame,
};

verus! {

/// Whether two identities are the same in every part.
pub open spec fn same_runtime(a: RuntimeIdentity, b: RuntimeIdentity) -> bool {
    &&& a.daemon_instance_id == b.daemon_instance_id
    &&& a.runtime_id == b.runtime_id
    &&& a.runtime_id_persistence == b.runtime_id_persistence
    &&& a.build_id@ == b.build_id@
    &&& a.protocol_generation == b.protocol_generation
    &&& a.platform@ == b.platform@
    &&& a.arch@ == b.arch@
    &&& a.capabilities@.len() == b.capabilities@.len()
    &&& forall|i: int|
        0 <= i < a.capabilities@.len() ==> (#[trigger] a.capabilities@[i]).capability@
            == b.capabilities@[i].capability@ && a.capabilities@[i].version
            == b.capabilities@[i].version
}

proof fn lemma_same_runtime(a: RuntimeIdentity, b: RuntimeIdentity)
    ensures
        a@ == b@ <==> same_runtime(a, b),
{
    let left = capabilities_view(a.capabilities@);
    let right = capabilities_view(b.capabilities@);
    if a@ == b@ {
        assert(left.len() == right.len());
        assert forall|i: int| 0 <= i < a.capabilities@.len() implies (
        #[trigger] a.capabilities@[i]).capability@ == b.capabilities@[i].capability@
            && a.capabilities@[i].version == b.capabilities@[i].version by {
            assert(left[i] == right[i]);
        }
    }
    if same_runtime(a, b) {
        assert(left =~= right) by {
            assert forall|i: int| 0 <= i < left.len() implies left[i] == right[i] by {
                assert(a.capabilities@[i].version == b.capabilities@[i].version);
            }
        }
    }
}

/// Identities are the same exactly where every part is, and a copy is.
pub proof fn law_an_identity_is_compared_in_every_part(
    a: RuntimeIdentity,
    b: RuntimeIdentity,
    same: bool,
    copy: RuntimeIdentity,
)
    requires
        call_ensures(RuntimeIdentity::same, (&a, &b), same),
        call_ensures(RuntimeIdentity::copied, (&a,), copy),
    ensures
        same <==> same_runtime(a, b),
        same_runtime(copy, a),
{
    lemma_same_runtime(a, b);
    lemma_same_runtime(copy, a);
}

/// Whether a Runtime advertises a capability in a version or a later one: the
/// first entry of that name counts.
pub open spec fn offers(runtime: RuntimeIdentity, name: Seq<char>, version: u64) -> bool {
    exists|p: int|
        0 <= p < runtime.capabilities@.len() && (#[trigger] runtime.capabilities@[p]).capability@
            == name && runtime.capabilities@[p].version >= version && forall|k: int|
            0 <= k < p ==> (#[trigger] runtime.capabilities@[k]).capability@ != name
}

proof fn lemma_offers(runtime: RuntimeIdentity, name: Seq<char>, version: u64)
    ensures
        meets(capabilities_view(runtime.capabilities@), (name, version)) <==> offers(
            runtime,
            name,
            version,
        ),
{
    let entries = runtime.capabilities@;
    let view = capabilities_view(entries);
    if meets(view, (name, version)) {
        let p = lemma_advertised_at(view, name);
        assert(entries[p].capability@ == name);
        assert forall|k: int| 0 <= k < p implies (#[trigger] entries[k]).capability@ != name by {
            assert(view[k].0 != name);
        }
    }
    if offers(runtime, name, version) {
        let p = choose|p: int|
            0 <= p < entries.len() && (#[trigger] entries[p]).capability@ == name
                && entries[p].version >= version && forall|k: int|
                0 <= k < p ==> (#[trigger] entries[k]).capability@ != name;
        assert forall|k: int| 0 <= k < p implies (#[trigger] view[k]).0 != name by {
            assert(entries[k].capability@ != name);
        }
        assert(view[p].0 == name);
        lemma_first_named(view, name, p);
    }
}

proof fn lemma_first_named(view: Seq<(Seq<char>, u64)>, name: Seq<char>, p: int)
    requires
        0 <= p < view.len(),
        view[p].0 == name,
        forall|k: int| 0 <= k < p ==> (#[trigger] view[k]).0 != name,
    ensures
        advertised_version(view, name) == Some(view[p].1),
    decreases p,
{
    if p > 0 {
        assert(view[0].0 != name);
        let rest = view.drop_first();
        assert forall|k: int| 0 <= k < p - 1 implies (#[trigger] rest[k]).0 != name by {
            assert(view[k + 1].0 != name);
        }
        lemma_first_named(rest, name, p - 1);
    }
}

proof fn lemma_advertised_at(view: Seq<(Seq<char>, u64)>, name: Seq<char>) -> (p: int)
    requires
        advertised_version(view, name) is Some,
    ensures
        0 <= p < view.len(),
        view[p].0 == name,
        advertised_version(view, name) == Some(view[p].1),
        forall|k: int| 0 <= k < p ==> (#[trigger] view[k]).0 != name,
    decreases view.len(),
{
    if view[0].0 == name {
        0
    } else {
        let rest = view.drop_first();
        let p = lemma_advertised_at(rest, name);
        assert forall|k: int| 0 <= k < p + 1 implies (#[trigger] view[k]).0 != name by {
            if k > 0 {
                assert(rest[k - 1].0 != name);
            }
        }
        p + 1
    }
}

/// A client without expectations accepts every compatible Runtime.
pub proof fn law_a_plain_client_accepts_every_runtime(
    path: &str,
    client: Client,
    actual: RuntimeIdentity,
    r: Result<(), ClientError>,
)
    requires
        call_ensures(Client::new, (path,), client),
        call_ensures(Client::check_runtime, (&client, &actual), r),
    ensures
        client@.socket_path == path@,
        r is Ok,
{
}

/// A client that expects a Runtime accepts exactly that one, in every part; any
/// other is refused with both identities, and nothing was applied.
pub proof fn law_an_expected_runtime_is_the_only_one(
    path: &str,
    plain: Client,
    expected: RuntimeIdentity,
    client: Client,
    actual: RuntimeIdentity,
    r: Result<(), ClientError>,
)
    requires
        call_ensures(Client::new, (path,), plain),
        call_ensures(Client::with_expected_runtime_identity, (plain, expected), client),
        call_ensures(Client::check_runtime, (&client, &actual), r),
    ensures
        client@.socket_path == path@,
        r is Ok <==> same_runtime(expected, actual),
        r matches Err(error) ==> (error matches ClientError::RuntimeIdentityMismatch {
            expected: wanted,
            actual: shown,
        } && same_runtime(*wanted, expected) && same_runtime(*shown, actual)),
{
    lemma_same_runtime(expected, actual);
    if let Err(ClientError::RuntimeIdentityMismatch { expected: wanted, actual: shown }) = r {
        lemma_same_runtime(*wanted, expected);
        lemma_same_runtime(*shown, actual);
    }
}

/// A client that needs capabilities accepts exactly the Runtimes that offer each
/// of them, in the version that it needs or a later one.
pub proof fn law_needed_capabilities_are_offered(
    path: &str,
    plain: Client,
    required: Vec<CapabilityVersion>,
    client: Client,
    actual: RuntimeIdentity,
    r: Result<(), ClientError>,
)
    requires
        call_ensures(Client::new, (path,), plain),
        call_ensures(Client::with_required_capabilities, (plain, required), Ok(client)),
        call_ensures(Client::check_runtime, (&client, &actual), r),
    ensures
        r is Ok <==> forall|k: int|
            0 <= k < required@.len() ==> offers(
                actual,
                (#[trigger] required@[k]).capability@,
                required@[k].version,
            ),
        r matches Err(error) ==> error is UnsupportedCapability,
{
    let view = capabilities_view(required@);
    assert(client@.required == view);
    assert forall|k: int| 0 <= k < required@.len() implies (meets(
        capabilities_view(actual.capabilities@),
        #[trigger] view[k],
    ) <==> offers(actual, required@[k].capability@, required@[k].version)) by {
        lemma_offers(actual, required@[k].capability@, required@[k].version);
        assert(view[k] == (required@[k].capability@, required@[k].version));
    }
    if r is Ok {
        assert forall|k: int| 0 <= k < required@.len() implies offers(
            actual,
            (#[trigger] required@[k]).capability@,
            required@[k].version,
        ) by {
            assert(meets(capabilities_view(actual.capabilities@), view[k]));
        }
    }
    if forall|k: int|
        0 <= k < required@.len() ==> offers(
            actual,
            (#[trigger] required@[k]).capability@,
            required@[k].version,
        ) {
        assert forall|k: int| 0 <= k < client@.required.len() implies meets(
            actual@.capabilities,
            #[trigger] client@.required[k],
        ) by {
            assert(offers(actual, required@[k].capability@, required@[k].version));
            assert(view[k] == client@.required[k]);
        }
    }
}

/// A needed version lies between one and the greatest integer that every peer
/// can name.
pub proof fn law_a_needed_version_can_be_named(
    plain: Client,
    required: Vec<CapabilityVersion>,
    r: Result<Client, ClientError>,
)
    requires
        call_ensures(Client::with_required_capabilities, (plain, required), r),
    ensures
        r is Ok <==> forall|k: int|
            0 <= k < required@.len() ==> 1 <= (#[trigger] required@[k]).version
                <= 9007199254740991,
        r matches Err(error) ==> (error matches ClientError::InvalidCapabilityRequirement {
            capability,
            required_version,
            maximum_version,
        } && maximum_version == 9007199254740991 && exists|k: int|
            0 <= k < required@.len() && (#[trigger] required@[k]).capability@ == capability@
                && required@[k].version == required_version && !(1 <= required_version
                <= maximum_version)),
{
}

/// A call is sent exactly where the Runtime is compatible and accepted. A control
/// call that is not sent was not applied.
pub proof fn law_a_call_is_sent_to_an_accepted_runtime(
    client: Client,
    hello: Received,
    runtime: RuntimeDescription,
    identity: RuntimeIdentity,
    call: ClientCall,
    judged: Result<(), ClientError>,
    r: Result<ClientFrame, ClientError>,
    control: bool,
)
    requires
        hello == Ok::<ServerFrame, ClientError>(ServerFrame::Hello { runtime, identity }),
        runtime.protocol_generation == 13,
        runtime.capabilities.version == 1,
        call_ensures(Client::check_runtime, (&client, &identity), judged),
        call_ensures(ClientCall::is_control, (&call,), control),
        call_ensures(
            Client::dispatch,
            (&client, hello, call),
            r,
        ),
    ensures
        r is Ok <==> judged is Ok,
        control <==> call is Input || call is RecoverableInput || call is Resize
            || call is Interrupt || call is Stop,
        control && r is Err ==> r->Err_0.disposition() == Some(CommandDisposition::NotApplied),
{
}

/// A client knows the daemon by what its greeting shows.
pub proof fn law_a_greeting_is_read_as_it_is(
    client: Client,
    hello: Received,
    runtime: RuntimeDescription,
    identity: RuntimeIdentity,
    ping: Result<(), ClientError>,
    info: Result<RuntimeIdentity, ClientError>,
    instance: Result<DaemonInstanceId, ClientError>,
    judged: Result<(), ClientError>,
    connected: Result<RuntimeIdentity, ClientError>,
)
    requires
        hello == Ok::<ServerFrame, ClientError>(ServerFrame::Hello { runtime, identity }),
        call_ensures(Client::ping, (&client, hello), ping),
        call_ensures(
            Client::runtime_info,
            (&client, hello),
            info,
        ),
        call_ensures(
            Client::daemon_instance,
            (&client, hello),
            instance,
        ),
        call_ensures(Client::check_runtime, (&client, &identity), judged),
        call_ensures(Client::connect, (&client, hello), connected),
    ensures
        ({
            let compatible = runtime.protocol_generation == 13 && runtime.capabilities.version == 1;
            &&& ping is Ok <==> compatible
            &&& info is Ok <==> compatible
            &&& instance is Ok <==> compatible
            &&& info matches Ok(shown) ==> shown == identity
            &&& instance matches Ok(id) ==> id == identity.daemon_instance_id
            &&& connected is Ok <==> compatible && judged is Ok
            &&& connected matches Ok(shown) ==> shown == identity
        }),
{
}

} // verus!
