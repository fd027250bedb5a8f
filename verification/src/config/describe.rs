//! The human-readable description of a configuration, with the guide that tells each
//! application where to connect.

use vstd::prelude::*;

use crate::config::Config;
use crate::config::HamlibNetConfig;
use crate::config::RadioConfig;
use crate::config::SerialEndpointConfig;
use crate::config::WinkeyerConfig;
use crate::config::WinkeyerEndpointConfig;
use crate::text::decimal;
use crate::text::joined_by;
use crate::text::push_decimal;
use crate::text::texts;

verus! {

/// What the standard library's debug formatting makes of a list of texts.
pub uninterp spec fn debug_list(items: Seq<Seq<char>>) -> Seq<char>;

/// Whether debug formatting shows a character as it is, for sure.
pub open spec fn plain_char(c: char) -> bool {
    ('a' <= c && c <= 'z') || ('A' <= c && c <= 'Z') || ('0' <= c && c <= '9') || c == '_'
}

/// Whether debug formatting shows each text of a list as it is, for sure.
pub open spec fn plain_items(items: Seq<Seq<char>>) -> bool {
    forall|i: int, j: int|
        0 <= i < items.len() && 0 <= j < items[i].len() ==> plain_char(#[trigger] items[i][j])
}

/// Texts in double quotes.
pub open spec fn in_quotes(items: Seq<Seq<char>>) -> Seq<Seq<char>> {
    items.map_values(|t: Seq<char>| seq!['"'] + t + seq!['"'])
}

/// `format!("{:?}")` of the standard library lists texts in square brackets, each in double
/// quotes, with a comma and a space between each two. Texts made of ASCII letters, digits and
/// underscores are shown as they are; how other characters are escaped is not spelled out.
#[verifier::external_body]
pub(crate) fn debug_text(items: &Vec<String>) -> (r: String)
    ensures
        r@ == debug_list(texts(items@)),
        plain_items(texts(items@)) ==> r@ == seq!['['] + joined_by(
            in_quotes(texts(items@)),
            seq![',', ' '],
        ) + seq![']'],
{
    format!("{items:?}")
}

/// A flag in words.
pub open spec fn truth(on: bool) -> Seq<char> {
    if on {
        "true"@
    } else {
        "false"@
    }
}

pub(crate) fn truth_text(on: bool) -> (r: &'static str)
    ensures
        r@ == truth(on),
{
    if on {
        "true"
    } else {
        "false"
    }
}

/// The line of the radio section.
pub open spec fn radio_line(radio: RadioConfig) -> Seq<char> {
    "radio: backend="@ + radio.backend@ + " model="@ + radio.model@ + " transport="@
        + radio.transport@ + " port="@ + radio.port@ + " baud="@ + decimal(radio.baud as nat)
        + " host="@ + radio.host@ + " tcp_port="@ + decimal(radio.tcp_port as nat) + " certified="@
        + truth(radio.certified) + " reply_timeout_ms="@ + decimal(radio.reply_timeout_ms as nat)
        + "\n"@
}

fn push_radio_line(out: &mut String, radio: &RadioConfig)
    ensures
        final(out)@ == old(out)@ + radio_line(*radio),
{
    out.append("radio: backend=");
    out.append(radio.backend.as_str());
    out.append(" model=");
    out.append(radio.model.as_str());
    out.append(" transport=");
    out.append(radio.transport.as_str());
    out.append(" port=");
    out.append(radio.port.as_str());
    out.append(" baud=");
    push_decimal(out, radio.baud as u64);
    out.append(" host=");
    out.append(radio.host.as_str());
    out.append(" tcp_port=");
    push_decimal(out, radio.tcp_port as u64);
    out.append(" certified=");
    out.append(truth_text(radio.certified));
    out.append(" reply_timeout_ms=");
    push_decimal(out, radio.reply_timeout_ms);
    out.append("\n");
    proof {
        assert(out@ =~= old(out)@ + radio_line(*radio));
    }
}

/// The line of a serial endpoint, with its permissions as they are shown.
pub open spec fn serial_line(endpoint: SerialEndpointConfig, perms: Seq<char>) -> Seq<char> {
    "serial_endpoint: name="@ + endpoint.name@ + " transport="@ + endpoint.transport@ + " baud="@
        + decimal(endpoint.baud as nat) + " dialect="@ + endpoint.dialect@ + " perms="@ + perms
        + " single_vfo="@ + truth(endpoint.single_vfo) + "\n"@
}

/// Append the line of a serial endpoint, with its permissions as they are shown.
pub fn push_serial_line(out: &mut String, endpoint: &SerialEndpointConfig, perms: &str)
    ensures
        final(out)@ == old(out)@ + serial_line(*endpoint, perms@),
{
    out.append("serial_endpoint: name=");
    out.append(endpoint.name.as_str());
    out.append(" transport=");
    out.append(endpoint.transport.as_str());
    out.append(" baud=");
    push_decimal(out, endpoint.baud as u64);
    out.append(" dialect=");
    out.append(endpoint.dialect.as_str());
    out.append(" perms=");
    out.append(perms);
    out.append(" single_vfo=");
    out.append(truth_text(endpoint.single_vfo));
    out.append("\n");
    proof {
        assert(out@ =~= old(out)@ + serial_line(*endpoint, perms@));
    }
}

/// The lines of the serial endpoints.
pub open spec fn serial_lines(endpoints: Seq<SerialEndpointConfig>) -> Seq<char>
    decreases endpoints.len(),
{
    if endpoints.len() == 0 {
        Seq::empty()
    } else {
        serial_lines(endpoints.drop_last()) + serial_line(
            endpoints.last(),
            debug_list(texts(endpoints.last().perms@)),
        )
    }
}

/// The line of a Hamlib net endpoint, with its permissions as they are shown.
pub open spec fn net_line(endpoint: HamlibNetConfig, perms: Seq<char>) -> Seq<char> {
    "hamlib_net: name="@ + endpoint.name@ + " bind="@ + endpoint.bind@ + " perms="@ + perms
        + " single_vfo="@ + truth(endpoint.single_vfo) + "\n"@
}

/// Append the line of a Hamlib net endpoint, with its permissions as they are shown.
pub fn push_net_line(out: &mut String, endpoint: &HamlibNetConfig, perms: &str)
    ensures
        final(out)@ == old(out)@ + net_line(*endpoint, perms@),
{
    out.append("hamlib_net: name=");
    out.append(endpoint.name.as_str());
    out.append(" bind=");
    out.append(endpoint.bind.as_str());
    out.append(" perms=");
    out.append(perms);
    out.append(" single_vfo=");
    out.append(truth_text(endpoint.single_vfo));
    out.append("\n");
    proof {
        assert(out@ =~= old(out)@ + net_line(*endpoint, perms@));
    }
}

/// The lines of the Hamlib net endpoints.
pub open spec fn net_lines(endpoints: Seq<HamlibNetConfig>) -> Seq<char>
    decreases endpoints.len(),
{
    if endpoints.len() == 0 {
        Seq::empty()
    } else {
        net_lines(endpoints.drop_last()) + net_line(
            endpoints.last(),
            debug_list(texts(endpoints.last().perms@)),
        )
    }
}

/// The line of the keyer.
pub open spec fn keyer_line(keyer: WinkeyerConfig) -> Seq<char> {
    "winkeyer: port="@ + keyer.port@ + " baud="@ + decimal(keyer.baud as nat) + " max_tx_ms="@
        + decimal(keyer.max_tx_ms as nat) + " api_bind="@ + keyer.api_bind@ + "\n"@
}

fn push_keyer_line(out: &mut String, keyer: &WinkeyerConfig)
    ensures
        final(out)@ == old(out)@ + keyer_line(*keyer),
{
    out.append("winkeyer: port=");
    out.append(keyer.port.as_str());
    out.append(" baud=");
    push_decimal(out, keyer.baud as u64);
    out.append(" max_tx_ms=");
    push_decimal(out, keyer.max_tx_ms);
    out.append(" api_bind=");
    out.append(keyer.api_bind.as_str());
    out.append("\n");
    proof {
        assert(out@ =~= old(out)@ + keyer_line(*keyer));
    }
}

/// The line of a keyer endpoint, with its permissions as they are shown.
pub open spec fn keyer_endpoint_line(endpoint: WinkeyerEndpointConfig, perms: Seq<char>) -> Seq<
    char,
> {
    "winkeyer_endpoint: name="@ + endpoint.name@ + " hub_transport="@ + endpoint.transport@
        + " application_transport="@ + (match endpoint.application_transport {
        Some(port) => port@,
        None => "(not recorded)"@,
    }) + " baud="@ + decimal(endpoint.baud as nat) + " primary="@ + truth(endpoint.primary)
        + " perms="@ + perms + "\n"@
}

/// Append the line of a keyer endpoint, with its permissions as they are shown.
pub fn push_keyer_endpoint_line(out: &mut String, endpoint: &WinkeyerEndpointConfig, perms: &str)
    ensures
        final(out)@ == old(out)@ + keyer_endpoint_line(*endpoint, perms@),
{
    out.append("winkeyer_endpoint: name=");
    out.append(endpoint.name.as_str());
    out.append(" hub_transport=");
    out.append(endpoint.transport.as_str());
    out.append(" application_transport=");
    match &endpoint.application_transport {
        Some(port) => {
            out.append(port.as_str());
        },
        None => {
            out.append("(not recorded)");
        },
    }
    out.append(" baud=");
    push_decimal(out, endpoint.baud as u64);
    out.append(" primary=");
    out.append(truth_text(endpoint.primary));
    out.append(" perms=");
    out.append(perms);
    out.append("\n");
    proof {
        assert(out@ =~= old(out)@ + keyer_endpoint_line(*endpoint, perms@));
    }
}

/// The lines of the keyer endpoints.
pub open spec fn keyer_endpoint_lines(endpoints: Seq<WinkeyerEndpointConfig>) -> Seq<char>
    decreases endpoints.len(),
{
    if endpoints.len() == 0 {
        Seq::empty()
    } else {
        keyer_endpoint_lines(endpoints.drop_last()) + keyer_endpoint_line(
            endpoints.last(),
            debug_list(texts(endpoints.last().perms@)),
        )
    }
}

/// The description of the keyer and its endpoints, if there is a keyer.
pub open spec fn keyer_text(config: Config) -> Seq<char> {
    match config.winkeyer {
        Some(keyer) => keyer_line(keyer) + keyer_endpoint_lines(config.winkeyer_endpoint@),
        None => Seq::empty(),
    }
}

/// The line of the guide for a serial endpoint.
pub open spec fn serial_guide(endpoint: SerialEndpointConfig) -> Seq<char> {
    match endpoint.application_transport {
        Some(port) => "  - "@ + endpoint.name@ + ": hub="@ + endpoint.transport@
            + ", application="@ + port@ + ", "@ + endpoint.dialect@ + " dialect, "@ + decimal(
            endpoint.baud as nat,
        ) + " baud.\n"@,
        None => "  - "@ + endpoint.name@ + ": the hub owns "@ + endpoint.transport@
            + "; application port is not recorded, "@ + endpoint.dialect@ + " dialect, "@
            + decimal(endpoint.baud as nat) + " baud.\n"@,
    }
}

fn push_serial_guide(out: &mut String, endpoint: &SerialEndpointConfig)
    ensures
        final(out)@ == old(out)@ + serial_guide(*endpoint),
{
    out.append("  - ");
    out.append(endpoint.name.as_str());
    match &endpoint.application_transport {
        Some(port) => {
            out.append(": hub=");
            out.append(endpoint.transport.as_str());
            out.append(", application=");
            out.append(port.as_str());
            out.append(", ");
        },
        None => {
            out.append(": the hub owns ");
            out.append(endpoint.transport.as_str());
            out.append("; application port is not recorded, ");
        },
    }
    out.append(endpoint.dialect.as_str());
    out.append(" dialect, ");
    push_decimal(out, endpoint.baud as u64);
    out.append(" baud.\n");
    proof {
        assert(out@ =~= old(out)@ + serial_guide(*endpoint));
    }
}

/// The lines of the guide for the serial endpoints.
pub open spec fn serial_guides(endpoints: Seq<SerialEndpointConfig>) -> Seq<char>
    decreases endpoints.len(),
{
    if endpoints.len() == 0 {
        Seq::empty()
    } else {
        serial_guides(endpoints.drop_last()) + serial_guide(endpoints.last())
    }
}

/// The line of the guide for a Hamlib net endpoint.
pub open spec fn net_guide(endpoint: HamlibNetConfig) -> Seq<char> {
    "  - "@ + endpoint.name@ + ": point this application at "@ + endpoint.bind@
        + " as a Hamlib NET (rigctld) device.\n"@
}

fn push_net_guide(out: &mut String, endpoint: &HamlibNetConfig)
    ensures
        final(out)@ == old(out)@ + net_guide(*endpoint),
{
    out.append("  - ");
    out.append(endpoint.name.as_str());
    out.append(": point this application at ");
    out.append(endpoint.bind.as_str());
    out.append(" as a Hamlib NET (rigctld) device.\n");
    proof {
        assert(out@ =~= old(out)@ + net_guide(*endpoint));
    }
}

/// The lines of the guide for the Hamlib net endpoints.
pub open spec fn net_guides(endpoints: Seq<HamlibNetConfig>) -> Seq<char>
    decreases endpoints.len(),
{
    if endpoints.len() == 0 {
        Seq::empty()
    } else {
        net_guides(endpoints.drop_last()) + net_guide(endpoints.last())
    }
}

/// The guide that tells each application where to connect, if there is any endpoint.
pub open spec fn guide_text(config: Config) -> Seq<char> {
    if config.serial_endpoint@.len() == 0 && config.hamlib_net@.len() == 0 {
        Seq::empty()
    } else {
        "\nClient connection guide -- point each application HERE, never at the radio's own port ("@
            + config.radio.port@ + "):\n"@ + serial_guides(config.serial_endpoint@) + net_guides(
            config.hamlib_net@,
        )
    }
}

/// The description of a configuration.
pub open spec fn description(config: Config) -> Seq<char> {
    radio_line(config.radio) + "poll: baseline_ms="@ + decimal(config.poll.baseline_ms as nat)
        + " heartbeat_ms="@ + decimal(config.poll.heartbeat_ms as nat) + "\nptt: max_tx_ms="@
        + decimal(config.ptt.max_tx_ms as nat) + "\nevents: native_push="@ + truth(
        config.events.native_push,
    ) + "\n"@ + serial_lines(config.serial_endpoint@) + net_lines(config.hamlib_net@) + keyer_text(
        config,
    ) + guide_text(config)
}

fn push_serial_lines(out: &mut String, endpoints: &Vec<SerialEndpointConfig>)
    ensures
        final(out)@ == old(out)@ + serial_lines(endpoints@),
{
    let mut i: usize = 0;
    proof {
        assert(endpoints@.take(0) =~= Seq::empty());
        assert(old(out)@ + Seq::<char>::empty() =~= old(out)@);
    }
    while i < endpoints.len()
        invariant
            i <= endpoints@.len(),
            out@ == old(out)@ + serial_lines(endpoints@.take(i as int)),
        decreases endpoints@.len() - i,
    {
        proof {
            assert(endpoints@.take(i + 1).drop_last() =~= endpoints@.take(i as int));
            assert(endpoints@.take(i + 1).last() == endpoints@[i as int]);
        }
        let perms = debug_text(&endpoints[i].perms);
        push_serial_line(out, &endpoints[i], perms.as_str());
        proof {
            assert(out@ =~= old(out)@ + serial_lines(endpoints@.take(i + 1)));
        }
        i = i + 1;
    }
    proof {
        assert(endpoints@.take(i as int) =~= endpoints@);
    }
}

fn push_net_lines(out: &mut String, endpoints: &Vec<HamlibNetConfig>)
    ensures
        final(out)@ == old(out)@ + net_lines(endpoints@),
{
    let mut i: usize = 0;
    proof {
        assert(endpoints@.take(0) =~= Seq::empty());
        assert(old(out)@ + Seq::<char>::empty() =~= old(out)@);
    }
    while i < endpoints.len()
        invariant
            i <= endpoints@.len(),
            out@ == old(out)@ + net_lines(endpoints@.take(i as int)),
        decreases endpoints@.len() - i,
    {
        proof {
            assert(endpoints@.take(i + 1).drop_last() =~= endpoints@.take(i as int));
            assert(endpoints@.take(i + 1).last() == endpoints@[i as int]);
        }
        let perms = debug_text(&endpoints[i].perms);
        push_net_line(out, &endpoints[i], perms.as_str());
        proof {
            assert(out@ =~= old(out)@ + net_lines(endpoints@.take(i + 1)));
        }
        i = i + 1;
    }
    proof {
        assert(endpoints@.take(i as int) =~= endpoints@);
    }
}

fn push_keyer_endpoint_lines(out: &mut String, endpoints: &Vec<WinkeyerEndpointConfig>)
    ensures
        final(out)@ == old(out)@ + keyer_endpoint_lines(endpoints@),
{
    let mut i: usize = 0;
    proof {
        assert(endpoints@.take(0) =~= Seq::empty());
        assert(old(out)@ + Seq::<char>::empty() =~= old(out)@);
    }
    while i < endpoints.len()
        invariant
            i <= endpoints@.len(),
            out@ == old(out)@ + keyer_endpoint_lines(endpoints@.take(i as int)),
        decreases endpoints@.len() - i,
    {
        proof {
            assert(endpoints@.take(i + 1).drop_last() =~= endpoints@.take(i as int));
            assert(endpoints@.take(i + 1).last() == endpoints@[i as int]);
        }
        let perms = debug_text(&endpoints[i].perms);
        push_keyer_endpoint_line(out, &endpoints[i], perms.as_str());
        proof {
            assert(out@ =~= old(out)@ + keyer_endpoint_lines(endpoints@.take(i + 1)));
        }
        i = i + 1;
    }
    proof {
        assert(endpoints@.take(i as int) =~= endpoints@);
    }
}

fn push_serial_guides(out: &mut String, endpoints: &Vec<SerialEndpointConfig>)
    ensures
        final(out)@ == old(out)@ + serial_guides(endpoints@),
{
    let mut i: usize = 0;
    proof {
        assert(endpoints@.take(0) =~= Seq::empty());
        assert(old(out)@ + Seq::<char>::empty() =~= old(out)@);
    }
    while i < endpoints.len()
        invariant
            i <= endpoints@.len(),
            out@ == old(out)@ + serial_guides(endpoints@.take(i as int)),
        decreases endpoints@.len() - i,
    {
        proof {
            assert(endpoints@.take(i + 1).drop_last() =~= endpoints@.take(i as int));
            assert(endpoints@.take(i + 1).last() == endpoints@[i as int]);
        }
        push_serial_guide(out, &endpoints[i]);
        proof {
            assert(out@ =~= old(out)@ + serial_guides(endpoints@.take(i + 1)));
        }
        i = i + 1;
    }
    proof {
        assert(endpoints@.take(i as int) =~= endpoints@);
    }
}

fn push_net_guides(out: &mut String, endpoints: &Vec<HamlibNetConfig>)
    ensures
        final(out)@ == old(out)@ + net_guides(endpoints@),
{
    let mut i: usize = 0;
    proof {
        assert(endpoints@.take(0) =~= Seq::empty());
        assert(old(out)@ + Seq::<char>::empty() =~= old(out)@);
    }
    while i < endpoints.len()
        invariant
            i <= endpoints@.len(),
            out@ == old(out)@ + net_guides(endpoints@.take(i as int)),
        decreases endpoints@.len() - i,
    {
        proof {
            assert(endpoints@.take(i + 1).drop_last() =~= endpoints@.take(i as int));
            assert(endpoints@.take(i + 1).last() == endpoints@[i as int]);
        }
        push_net_guide(out, &endpoints[i]);
        proof {
            assert(out@ =~= old(out)@ + net_guides(endpoints@.take(i + 1)));
        }
        i = i + 1;
    }
    proof {
        assert(endpoints@.take(i as int) =~= endpoints@);
    }
}

impl Config {
    /// A human-readable multi-line description (used for a dry run).
    #[must_use]
    pub fn describe(&self) -> (r: String)
        ensures
            r@ == description(*self),
    {
        let mut out = String::new();
        push_radio_line(&mut out, &self.radio);
        out.append("poll: baseline_ms=");
        push_decimal(&mut out, self.poll.baseline_ms);
        out.append(" heartbeat_ms=");
        push_decimal(&mut out, self.poll.heartbeat_ms);
        out.append("\nptt: max_tx_ms=");
        push_decimal(&mut out, self.ptt.max_tx_ms);
        out.append("\nevents: native_push=");
        out.append(truth_text(self.events.native_push));
        out.append("\n");
        push_serial_lines(&mut out, &self.serial_endpoint);
        push_net_lines(&mut out, &self.hamlib_net);
        self.append_winkeyer_description(&mut out);
        self.append_guide(&mut out);
        proof {
            assert(out@ =~= description(*self));
        }
        out
    }

    fn append_winkeyer_description(&self, out: &mut String)
        ensures
            final(out)@ == old(out)@ + keyer_text(*self),
    {
        if let Some(keyer) = &self.winkeyer {
            push_keyer_line(out, keyer);
            push_keyer_endpoint_lines(out, &self.winkeyer_endpoint);
        }
        proof {
            assert(out@ =~= old(out)@ + keyer_text(*self));
        }
    }

    fn append_guide(&self, out: &mut String)
        ensures
            final(out)@ == old(out)@ + guide_text(*self),
    {
        if self.serial_endpoint.len() > 0 || self.hamlib_net.len() > 0 {
            out.append(
                "\nClient connection guide -- point each application HERE, never at the radio's own port (",
            );
            out.append(self.radio.port.as_str());
            out.append("):\n");
            push_serial_guides(out, &self.serial_endpoint);
            push_net_guides(out, &self.hamlib_net);
        }
        proof {
            assert(out@ =~= old(out)@ + guide_text(*self));
        }
    }
}

} // verus!
