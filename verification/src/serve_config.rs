//! Options of the serve command.

use vstd::prelude::*;

use crate::text;

verus! {

/// An IP address.
#[derive(Debug, Clone, Copy, PartialEq, Eq)]
pub enum IpAddress {
    V4([u8; 4]),
    V6([u16; 8]),
}

impl IpAddress {
    /// Whether the address is `127.x.x.x` or `::1`.
    pub open spec fn loopback(self) -> bool {
        match self {
            IpAddress::V4(octets) => octets@[0] == 127,
            IpAddress::V6(segments) => segments@ == seq![0u16, 0, 0, 0, 0, 0, 0, 1],
        }
    }

    /// Whether the address is `127.x.x.x` or `::1`.
    pub fn is_loopback(&self) -> (r: bool)
        ensures
            r == self.loopback(),
    {
        match self {
            IpAddress::V4(octets) => octets[0] == 127,
            IpAddress::V6(s) => {
                let r = s[0] == 0 && s[1] == 0 && s[2] == 0 && s[3] == 0 && s[4] == 0 && s[5] == 0
                    && s[6] == 0 && s[7] == 1;
                assert(r ==> s@ =~= seq![0u16, 0, 0, 0, 0, 0, 0, 1]);
                r
            },
        }
    }
}

/// Options of the serve command; `P` is a path.
#[derive(Debug, Clone)]
pub struct ServeConfig<P> {
    /// Address to bind to.
    pub bind: IpAddress,
    /// Port; zero asks for a free one.
    pub port: u16,
    /// Model for requests that name none.
    pub default_model: String,
    /// Models that are accepted; empty means any.
    pub allow_models: Vec<String>,
    /// Whether the monitor is off.
    pub no_tui: bool,
    /// Where both sides of the traffic are written.
    pub capture_dir: Option<P>,
    /// Longest wait for the next chunk from upstream, in seconds.
    pub idle_timeout_secs: u64,
    /// What the bridge calls itself upstream.
    pub client_identifier: String,
    /// Whether an address other than loopback is accepted; there is no client
    /// authentication.
    pub allow_open_bind: bool,
}

impl<P> Default for ServeConfig<P> {
    fn default() -> (r: ServeConfig<P>)
        ensures
            r.bind is V4,
            r.bind->V4_0@ == seq![127u8, 0, 0, 1],
            r.port == 18765,
            r.default_model@ == "grok-4.5"@,
            r.allow_models@ == Seq::<String>::empty(),
            !r.no_tui,
            r.capture_dir is None,
            r.idle_timeout_secs == 300,
            r.client_identifier@ == "anthropic-bridge"@,
            !r.allow_open_bind,
    {
        let octets: [u8; 4] = [127, 0, 0, 1];
        assert(octets@ =~= seq![127u8, 0, 0, 1]);
        ServeConfig {
            bind: IpAddress::V4(octets),
            port: 18765,
            default_model: "grok-4.5".to_owned(),
            allow_models: Vec::new(),
            no_tui: false,
            capture_dir: None,
            idle_timeout_secs: 300,
            client_identifier: "anthropic-bridge".to_owned(),
            allow_open_bind: false,
        }
    }
}

/// Why an open bind is refused; `bind` is the address as text.
pub open spec fn open_bind_refusal(bind: Seq<char>) -> Seq<char> {
    "refusing non-loopback bind "@ + bind
        + " (no client auth on Anthropic façade); pass --i-understand-open-bind to override"@
}

impl<P> ServeConfig<P> {
    /// Whether requests for this model are accepted: every model where the list
    /// is empty, else those on it.
    pub open spec fn accepts(self, model: Seq<char>) -> bool {
        self.allow_models@.len() == 0 || exists|i: int|
            0 <= i < self.allow_models@.len() && (#[trigger] self.allow_models@[i])@ == model
    }

    /// Whether requests for this model are accepted.
    pub fn allows_model(&self, model: &str) -> (r: bool)
        ensures
            r == self.accepts(model@),
    {
        if self.allow_models.len() == 0 {
            return true;
        }
        let mut i: usize = 0;
        while i < self.allow_models.len()
            invariant
                i <= self.allow_models@.len(),
                self.allow_models@.len() > 0,
                forall|j: int| 0 <= j < i ==> (#[trigger] self.allow_models@[j])@ != model@,
            decreases self.allow_models@.len() - i,
        {
            if text::same(self.allow_models[i].as_str(), model) {
                return true;
            }
            i += 1;
        }
        false
    }

    /// Refuses an address other than loopback unless open binds are allowed;
    /// `bind_text` is the address as text.
    pub fn validate_bind(&self, bind_text: &str) -> (r: Result<(), String>)
        ensures
            r is Ok <==> self.bind.loopback() || self.allow_open_bind,
            r is Err ==> r->Err_0@ == open_bind_refusal(bind_text@),
    {
        if self.bind.is_loopback() || self.allow_open_bind {
            return Ok(());
        }
        Err(
            text::join3(
                "refusing non-loopback bind ",
                bind_text,
                " (no client auth on Anthropic façade); pass --i-understand-open-bind to override",
            ),
        )
    }
}

/// Loopback is every IPv4 address that begins with 127 and the one IPv6 address
/// whose segments are all zero but the last, which is one.
pub proof fn loopback_is_127_or_one(a: IpAddress)
    ensures
        a matches IpAddress::V4(o) ==> (a.loopback() <==> o@[0] == 127),
        a matches IpAddress::V6(s) ==> (a.loopback() <==> s@[7] == 1 && forall|i: int|
            0 <= i < 7 ==> #[trigger] s@[i] == 0),
{
    if let IpAddress::V6(s) = a {
        let one = seq![0u16, 0, 0, 0, 0, 0, 0, 1];
        if s@[7] == 1 && (forall|i: int| 0 <= i < 7 ==> #[trigger] s@[i] == 0) {
            assert(s@ =~= one);
        }
        if s@ == one {
            assert forall|i: int| 0 <= i < 7 implies #[trigger] s@[i] == 0 by {}
        }
    }
}

/// An empty list accepts every model; any other accepts the models on it and
/// refuses those that differ from each of them.
pub proof fn a_list_of_models_is_exact<P>(config: ServeConfig<P>, model: Seq<char>, i: int)
    ensures
        config.allow_models@.len() == 0 ==> config.accepts(model),
        0 <= i < config.allow_models@.len() ==> config.accepts(config.allow_models@[i]@),
        config.allow_models@.len() > 0 && (forall|j: int|
            0 <= j < config.allow_models@.len() ==> (#[trigger] config.allow_models@[j])@ != model)
            ==> !config.accepts(model),
{
}

/// The refusal of an open bind names the address and the option that allows it.
pub proof fn a_refusal_names_the_address(bind: Seq<char>)
    ensures
        "refusing non-loopback bind "@.is_prefix_of(open_bind_refusal(bind)),
        text::occurs(bind, open_bind_refusal(bind)),
        " (no client auth on Anthropic façade); pass --i-understand-open-bind to override"@.is_suffix_of(
            open_bind_refusal(bind),
        ),
{
    let head = "refusing non-loopback bind "@;
    let all = open_bind_refusal(bind);
    let n = head.len() as int;
    let k = n + bind.len();
    assert(all.subrange(0, n) =~= head);
    assert(all.subrange(n, k) =~= bind);
    assert(text::occurs_at(bind, all, n));
    assert(all.subrange(k, all.len() as int)
        =~= " (no client auth on Anthropic façade); pass --i-understand-open-bind to override"@);
}

} // verus!
