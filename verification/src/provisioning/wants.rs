//! What a configuration wants of a system: which endpoints, on which ports.

use vstd::prelude::*;

use crate::config::Config;
use crate::config::SerialEndpointConfig;
use crate::config::WinkeyerEndpointConfig;
use crate::provisioning::com_name;
use crate::provisioning::com_port_number;
use crate::provisioning::law_definitions_are_found;
use crate::provisioning::outcome::plainly_named;
use crate::provisioning::repeats_id;
use crate::provisioning::repeats_port;
use crate::provisioning::repetition;
use crate::provisioning::text_of;
use crate::provisioning::wanted;
use crate::provisioning::wanted_by;
use crate::provisioning::wanted_keyers;
use crate::provisioning::wanted_serials;
use crate::provisioning::Desired;
use crate::provisioning::EndpointDefinition;
use crate::provisioning::EndpointKind;
use crate::text::decimal;
use crate::text::is_space;
use crate::text::lower_ascii;
use crate::text::lowered;
use crate::text::same_ignoring_case;
use crate::text::trimmed;
use crate::text::upper_ascii;
use crate::text::uppered;

verus! {

/// The endpoints that can be installed: their names, hardware ids, titles, ports where none is
/// asked for, and what they carry.
pub proof fn law_definitions()
    ensures
        EndpointKind::Cat.name() == "Cat"@,
        EndpointKind::Winkeyer.name() == "Winkeyer"@,
        EndpointDefinition::Default.id() == "cathub-default"@,
        EndpointDefinition::HdsdrCat.id() == "hdsdr-cat"@,
        EndpointDefinition::N1mmCat.id() == "n1mm-cat"@,
        EndpointDefinition::Arcp590Cat.id() == "arcp590-cat"@,
        EndpointDefinition::N1mmWinkeyer.id() == "n1mm-winkeyer"@,
        EndpointDefinition::Wktools.id() == "wktools"@,
        EndpointDefinition::Default.hardware() == "ROOT\\CATHUB_VIRTUAL_SERIAL"@,
        EndpointDefinition::HdsdrCat.hardware() == "ROOT\\CATHUB_HDSDR_CAT"@,
        EndpointDefinition::N1mmCat.hardware() == "ROOT\\CATHUB_N1MM_CAT"@,
        EndpointDefinition::Arcp590Cat.hardware() == "ROOT\\CATHUB_ARCP590_CAT"@,
        EndpointDefinition::N1mmWinkeyer.hardware() == "ROOT\\CATHUB_N1MM_WINKEYER"@,
        EndpointDefinition::Wktools.hardware() == "ROOT\\CATHUB_WKTOOLS"@,
        EndpointDefinition::Default.title() == "CatHub Virtual Serial Port"@,
        EndpointDefinition::HdsdrCat.title() == "CatHub HDSDR CAT Port"@,
        EndpointDefinition::N1mmCat.title() == "CatHub N1MM CAT Port"@,
        EndpointDefinition::Arcp590Cat.title() == "CatHub ARCP-590 CAT Port"@,
        EndpointDefinition::N1mmWinkeyer.title() == "CatHub N1MM WinKeyer Port"@,
        EndpointDefinition::Wktools.title() == "CatHub WKTools Port"@,
        EndpointDefinition::Default.port() == "COM21"@,
        EndpointDefinition::HdsdrCat.port() == "COM11"@,
        EndpointDefinition::N1mmCat.port() == "COM21"@,
        EndpointDefinition::Arcp590Cat.port() == "COM31"@,
        EndpointDefinition::N1mmWinkeyer.port() == "COM41"@,
        EndpointDefinition::Wktools.port() == "COM43"@,
        EndpointDefinition::Default.carries() == EndpointKind::Cat,
        EndpointDefinition::HdsdrCat.carries() == EndpointKind::Cat,
        EndpointDefinition::N1mmCat.carries() == EndpointKind::Cat,
        EndpointDefinition::Arcp590Cat.carries() == EndpointKind::Cat,
        EndpointDefinition::N1mmWinkeyer.carries() == EndpointKind::Winkeyer,
        EndpointDefinition::Wktools.carries() == EndpointKind::Winkeyer,
{
}

/// A port is named by `COM`, in capitals or not, and a number from 1 to 4096; no other number
/// names one.
pub proof fn law_port_names(n: nat)
    ensures
        com_name(n) == "COM"@ + decimal(n),
        com_port_number("COM"@ + decimal(n)) == if 1 <= n <= 4096 {
            Some(n)
        } else {
            None
        },
        com_port_number("com"@ + decimal(n)) == com_port_number("COM"@ + decimal(n)),
{
    lemma_numbered("COM"@, n);
    lemma_numbered("com"@, n);
}

proof fn lemma_numbered(prefix: Seq<char>, n: nat)
    requires
        prefix == "COM"@ || prefix == "com"@,
    ensures
        com_port_number(prefix + decimal(n)) == if 1 <= n <= 4096 {
            Some(n)
        } else {
            None
        },
{
    reveal_strlit("COM");
    reveal_strlit("com");
    let digits = decimal(n);
    let name = prefix + digits;
    crate::ascii::lemma_padded_digits(n, 0);
    assert(crate::ascii::padded(n, 0) =~= digits);
    assert(crate::text::is_digit(digits.last()));
    assert(name.last() == digits.last());
    assert(!is_space(name[0]));
    assert(!is_space(name.last()));
    assert(trimmed(name) == name);
    let big = uppered(name);
    assert forall|i: int| 0 <= i < digits.len() implies upper_ascii(#[trigger] digits[i])
        == digits[i] by {
        assert(crate::text::is_digit(digits[i]));
    }
    assert(big.take(3) =~= "COM"@);
    assert(big.skip(3) =~= digits);
    crate::text::law_numbers_are_read(n, u16::MAX as nat);
}

proof fn lemma_plain_id(d: EndpointDefinition)
    ensures
        lowered(trimmed(d.id())) == d.id(),
{
    reveal_strlit("cathub-default");
    reveal_strlit("hdsdr-cat");
    reveal_strlit("n1mm-cat");
    reveal_strlit("arcp590-cat");
    reveal_strlit("n1mm-winkeyer");
    reveal_strlit("wktools");
    let id = d.id();
    assert(!is_space(id[0]) && !is_space(id.last()));
    assert(trimmed(id) == id);
    assert(lowered(id) =~= id);
}

/// An endpoint is wanted under its name, with its hardware id and title, on the port that is
/// asked for or, where none is, on its own, for the entry of the configuration that names it. It
/// is refused for an entry of another kind.
pub proof fn law_wanted_endpoints(
    d: EndpointDefinition,
    kind: EndpointKind,
    configured_name: Seq<char>,
    n: nat,
)
    requires
        1 <= n <= 4096,
    ensures
        wanted(d.id(), d.carries(), configured_name, Some("COM"@ + decimal(n))) == Ok::<
            Desired,
            Seq<char>,
        >(
            Desired {
                stable_id: d.id(),
                kind: d.carries(),
                hardware_id: d.hardware(),
                display_name: d.title(),
                com_port: "COM"@ + decimal(n),
                configured_name,
            },
        ),
        wanted(d.id(), d.carries(), configured_name, None) == wanted(
            d.id(),
            d.carries(),
            configured_name,
            Some(d.port()),
        ),
        kind != d.carries() ==> wanted(d.id(), kind, configured_name, None) is Err,
{
    lemma_plain_id(d);
    law_definitions_are_found(d);
    law_port_names(n);
}

spec fn fits(want: Desired) -> bool {
    lowered(want.stable_id) == want.stable_id
}

proof fn lemma_fits(
    stable_id: Seq<char>,
    kind: EndpointKind,
    configured_name: Seq<char>,
    port: Option<Seq<char>>,
)
    ensures
        wanted(stable_id, kind, configured_name, port) matches Ok(want) ==> fits(want)
            && want.configured_name == configured_name && want.kind == kind && want.stable_id
            == lowered(trimmed(stable_id)) && (port matches Some(name) ==> com_port_number(
            name,
        ) is Some && want.com_port == com_name(com_port_number(name)->Some_0)),
{
    let id = lowered(trimmed(stable_id));
    assert forall|c: char| lower_ascii(#[trigger] lower_ascii(c)) == lower_ascii(c) by {}
    assert(lowered(id) =~= id);
}

/// Whether an endpoint is wanted for an entry of the configuration: under its name, of its kind,
/// and on the port that it asks for.
pub open spec fn wanted_for(
    want: Desired,
    kind: EndpointKind,
    name: Seq<char>,
    id: Seq<char>,
    port: Option<Seq<char>>,
) -> bool {
    &&& want.configured_name == name
    &&& want.kind == kind
    &&& want.stable_id == lowered(trimmed(id))
    &&& port matches Some(asked) ==> com_port_number(asked) is Some && want.com_port == com_name(
        com_port_number(asked)->Some_0,
    )
}

proof fn lemma_serials(endpoints: Seq<SerialEndpointConfig>)
    requires
        wanted_serials(endpoints) is Ok,
    ensures
        ({
            let all = wanted_serials(endpoints)->Ok_0;
            &&& forall|k: int| 0 <= k < all.len() ==> fits(#[trigger] all[k])
            &&& forall|i: int|
                0 <= i < endpoints.len() && (#[trigger] endpoints[i]).virtual_endpoint is Some
                    ==> exists|k: int|
                    0 <= k < all.len() && wanted_for(
                        #[trigger] all[k],
                        EndpointKind::Cat,
                        endpoints[i].name@,
                        endpoints[i].virtual_endpoint->Some_0@,
                        text_of(endpoints[i].application_transport),
                    )
        }),
    decreases endpoints.len(),
{
    if endpoints.len() > 0 {
        let earlier = endpoints.drop_last();
        let last = endpoints.last();
        lemma_serials(earlier);
        let before = wanted_serials(earlier)->Ok_0;
        let all = wanted_serials(endpoints)->Ok_0;
        if last.virtual_endpoint is Some {
            lemma_fits(
                last.virtual_endpoint->Some_0@,
                EndpointKind::Cat,
                last.name@,
                text_of(last.application_transport),
            );
        }
        assert forall|k: int| 0 <= k < all.len() implies fits(#[trigger] all[k]) by {
            if k < before.len() {
                assert(all[k] == before[k]);
            }
        }
        assert forall|i: int|
            0 <= i < endpoints.len() && (#[trigger] endpoints[i]).virtual_endpoint
                is Some implies exists|k: int|
            0 <= k < all.len() && wanted_for(
                #[trigger] all[k],
                EndpointKind::Cat,
                endpoints[i].name@,
                endpoints[i].virtual_endpoint->Some_0@,
                text_of(endpoints[i].application_transport),
            ) by {
            if i < earlier.len() {
                assert(earlier[i] == endpoints[i]);
                let k = choose|k: int|
                    0 <= k < before.len() && wanted_for(
                        #[trigger] before[k],
                        EndpointKind::Cat,
                        earlier[i].name@,
                        earlier[i].virtual_endpoint->Some_0@,
                        text_of(earlier[i].application_transport),
                    );
                assert(all[k] == before[k]);
            } else {
                let k = all.len() - 1;
                assert(wanted_for(
                    all[k],
                    EndpointKind::Cat,
                    last.name@,
                    last.virtual_endpoint->Some_0@,
                    text_of(last.application_transport),
                ));
            }
        }
    }
}

proof fn lemma_keyers(before: Seq<Desired>, endpoints: Seq<WinkeyerEndpointConfig>)
    requires
        wanted_keyers(before, endpoints) is Ok,
        forall|k: int| 0 <= k < before.len() ==> fits(#[trigger] before[k]),
    ensures
        ({
            let all = wanted_keyers(before, endpoints)->Ok_0;
            &&& before.len() <= all.len()
            &&& forall|k: int| 0 <= k < before.len() ==> #[trigger] all[k] == before[k]
            &&& forall|k: int| 0 <= k < all.len() ==> fits(#[trigger] all[k])
            &&& forall|i: int|
                0 <= i < endpoints.len() && (#[trigger] endpoints[i]).virtual_endpoint is Some
                    ==> exists|k: int|
                    0 <= k < all.len() && wanted_for(
                        #[trigger] all[k],
                        EndpointKind::Winkeyer,
                        endpoints[i].name@,
                        endpoints[i].virtual_endpoint->Some_0@,
                        text_of(endpoints[i].application_transport),
                    )
        }),
    decreases endpoints.len(),
{
    if endpoints.len() > 0 {
        let earlier = endpoints.drop_last();
        let last = endpoints.last();
        lemma_keyers(before, earlier);
        let some = wanted_keyers(before, earlier)->Ok_0;
        let all = wanted_keyers(before, endpoints)->Ok_0;
        if last.virtual_endpoint is Some {
            lemma_fits(
                last.virtual_endpoint->Some_0@,
                EndpointKind::Winkeyer,
                last.name@,
                text_of(last.application_transport),
            );
        }
        assert forall|k: int| 0 <= k < before.len() implies #[trigger] all[k] == before[k] by {
            assert(some[k] == before[k]);
        }
        assert forall|k: int| 0 <= k < all.len() implies fits(#[trigger] all[k]) by {
            if k < some.len() {
                assert(all[k] == some[k]);
            }
        }
        assert forall|i: int|
            0 <= i < endpoints.len() && (#[trigger] endpoints[i]).virtual_endpoint
                is Some implies exists|k: int|
            0 <= k < all.len() && wanted_for(
                #[trigger] all[k],
                EndpointKind::Winkeyer,
                endpoints[i].name@,
                endpoints[i].virtual_endpoint->Some_0@,
                text_of(endpoints[i].application_transport),
            ) by {
            if i < earlier.len() {
                assert(earlier[i] == endpoints[i]);
                let k = choose|k: int|
                    0 <= k < some.len() && wanted_for(
                        #[trigger] some[k],
                        EndpointKind::Winkeyer,
                        earlier[i].name@,
                        earlier[i].virtual_endpoint->Some_0@,
                        text_of(earlier[i].application_transport),
                    );
                assert(all[k] == some[k]);
            } else {
                let k = all.len() - 1;
                assert(wanted_for(
                    all[k],
                    EndpointKind::Winkeyer,
                    last.name@,
                    last.virtual_endpoint->Some_0@,
                    text_of(last.application_transport),
                ));
            }
        }
    }
}

proof fn lemma_no_repetition(endpoints: Seq<Desired>)
    requires
        repetition(endpoints) is None,
    ensures
        forall|i: int, j: int|
            #![trigger endpoints[i], endpoints[j]]
            0 <= i < j < endpoints.len() ==> !same_ignoring_case(
                endpoints[i].stable_id,
                endpoints[j].stable_id,
            ) && !same_ignoring_case(endpoints[i].com_port, endpoints[j].com_port),
    decreases endpoints.len(),
{
    if endpoints.len() > 0 {
        let earlier = endpoints.drop_last();
        lemma_no_repetition(earlier);
        assert(!repeats_id(endpoints));
        assert(!repeats_port(endpoints));
        assert forall|i: int, j: int|
            #![trigger endpoints[i], endpoints[j]]
            0 <= i < j < endpoints.len() implies !same_ignoring_case(
            endpoints[i].stable_id,
            endpoints[j].stable_id,
        ) && !same_ignoring_case(endpoints[i].com_port, endpoints[j].com_port) by {
            if j < earlier.len() {
                assert(earlier[i] == endpoints[i] && earlier[j] == endpoints[j]);
            } else {
                assert(endpoints[j] == endpoints.last());
            }
        }
    }
}

/// What a configuration wants is every virtual endpoint that it names, once each, under the name
/// and on the port that its entry asks for. No two of them share a name or a port, so a plan for
/// them can be carried out.
pub proof fn law_configurations_want(config: Config)
    requires
        wanted_by(config) is Ok,
    ensures
        ({
            let all = wanted_by(config)->Ok_0;
            let serials = config.serial_endpoint@;
            let keyers = config.winkeyer_endpoint@;
            &&& plainly_named(all)
            &&& forall|i: int, j: int|
                #![trigger all[i], all[j]]
                0 <= i < j < all.len() ==> all[i].com_port != all[j].com_port
            &&& forall|i: int|
                0 <= i < serials.len() && (#[trigger] serials[i]).virtual_endpoint is Some
                    ==> exists|k: int|
                    0 <= k < all.len() && wanted_for(
                        #[trigger] all[k],
                        EndpointKind::Cat,
                        serials[i].name@,
                        serials[i].virtual_endpoint->Some_0@,
                        text_of(serials[i].application_transport),
                    )
            &&& forall|i: int|
                0 <= i < keyers.len() && (#[trigger] keyers[i]).virtual_endpoint is Some
                    ==> exists|k: int|
                    0 <= k < all.len() && wanted_for(
                        #[trigger] all[k],
                        EndpointKind::Winkeyer,
                        keyers[i].name@,
                        keyers[i].virtual_endpoint->Some_0@,
                        text_of(keyers[i].application_transport),
                    )
        }),
{
    let serials = config.serial_endpoint@;
    let keyers = config.winkeyer_endpoint@;
    let before = wanted_serials(serials)->Ok_0;
    let all = wanted_by(config)->Ok_0;
    lemma_serials(serials);
    lemma_keyers(before, keyers);
    lemma_no_repetition(all);
    assert forall|d: int, e: int|
        0 <= d < all.len() && 0 <= e < all.len() && d != e implies (#[trigger] all[d]).stable_id
        != (#[trigger] all[e]).stable_id by {
        if d < e {
            assert(!same_ignoring_case(all[d].stable_id, all[e].stable_id));
        } else {
            assert(!same_ignoring_case(all[e].stable_id, all[d].stable_id));
        }
    }
    assert forall|d: int| 0 <= d < all.len() implies lowered((#[trigger] all[d]).stable_id)
        == all[d].stable_id by {
        assert(fits(all[d]));
    }
    assert forall|i: int|
        0 <= i < serials.len() && (#[trigger] serials[i]).virtual_endpoint is Some implies exists|
        k: int,
    |
        0 <= k < all.len() && wanted_for(
            #[trigger] all[k],
            EndpointKind::Cat,
            serials[i].name@,
            serials[i].virtual_endpoint->Some_0@,
            text_of(serials[i].application_transport),
        ) by {
        let k = choose|k: int|
            0 <= k < before.len() && wanted_for(
                #[trigger] before[k],
                EndpointKind::Cat,
                serials[i].name@,
                serials[i].virtual_endpoint->Some_0@,
                text_of(serials[i].application_transport),
            );
        assert(all[k] == before[k]);
    }
}

} // verus!
