use vstd::prelude::*;

verus! {

/// The path of the WebRTC session endpoint when a configuration names none.
pub const DEFAULT_RTC_PATH: &'static str = "rtc_session";

/// The delays with which a link conditioner holds back incoming packets, in
/// milliseconds: a base latency, and a jitter around it.
#[derive(Clone, Copy, Debug, PartialEq, Eq, Structural)]
pub struct LinkConditionerConfig {
    pub incoming_latency: u32,
    pub incoming_jitter: u32,
}

impl LinkConditionerConfig {
    /// A conditioner with the given latency and jitter.
    pub fn new(incoming_latency: u32, incoming_jitter: u32) -> (res: LinkConditionerConfig)
        ensures
            res == (LinkConditionerConfig { incoming_latency, incoming_jitter }),
    {
        LinkConditionerConfig { incoming_latency, incoming_jitter }
    }

    /// The conditions of an average connection: 170 ms of latency, 45 ms of jitter.
    pub fn average_condition() -> (res: LinkConditionerConfig)
        ensures
            res == (LinkConditionerConfig { incoming_latency: 170, incoming_jitter: 45 }),
    {
        LinkConditionerConfig::new(170, 45)
    }
}

/// Configuration that the client and the server share.
#[derive(Clone, Debug)]
pub struct SocketSharedConfig {
    /// The conditions to simulate on incoming packets, if any.
    pub link_condition_config: Option<LinkConditionerConfig>,
    /// The path of the WebRTC session endpoint.
    pub rtc_endpoint_path: String,
}

/// The shared configuration, under the name that sockets use for it.
pub type SocketConfig = SocketSharedConfig;

impl SocketSharedConfig {
    /// A configuration with the given link conditions and endpoint path; with
    /// no path given, the endpoint is [`DEFAULT_RTC_PATH`].
    pub fn new(
        link_condition_config: Option<LinkConditionerConfig>,
        rtc_endpoint_path: Option<String>,
    ) -> (res: SocketSharedConfig)
        ensures
            res.link_condition_config == link_condition_config,
            res.rtc_endpoint_path@ == match rtc_endpoint_path {
                Some(p) => p@,
                None => DEFAULT_RTC_PATH@,
            },
    {
        let rtc_endpoint_path = match rtc_endpoint_path {
            Some(path) => path,
            None => DEFAULT_RTC_PATH.to_owned(),
        };
        SocketSharedConfig { link_condition_config, rtc_endpoint_path }
    }
}

} // verus!
