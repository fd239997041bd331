//! Result and reason codes shared by the codec and the broker.

use vstd::prelude::*;

verus! {

/// Reason codes reported by the codec and the broker.
#[derive(Clone, Copy, Debug, PartialEq, Eq, Structural)]
pub enum Mqtt5ReturnCodes {
    MqttRcSuccessNormalOrDisconnectionOrGrantedQos0,
    MqttRcGrantedQos1,
    MqttRcGrantedQos2,
    MqttRcDisconnectWithWillMsg,
    MqttRcNoMatchingSubscribers,
    MqttRcNoSubscriptionExisted,
    MqttRcContinueAuthentication,
    MqttRcReauthenticate,
    MqttRcUnspecified,
    MqttRcMalformedPacket,
    MqttRcProtocolError,
    MqttRcImplementationSpecific,
    MqttRcUnsupportedProtocolVersion,
    MqttRcClientidNotValid,
    MqttRcBadUsernameOrPassword,
    MqttRcNotAuthorized,
    MqttRcServerUnavailable,
    MqttRcServerBusy,
    MqttRcBanned,
    MqttRcServerShuttingDown,
    MqttRcBadAuthenticationMethod,
    MqttRcKeepAliveTimeout,
    MqttRcSessionTakenOver,
    MqttRcTopicFilterInvalid,
    MqttRcTopicNameInvalid,
    MqttRcPacketIdInUse,
    MqttRcPacketIdNotFound,
    MqttRcReceiveMaximumExceeded,
    MqttRcTopicAliasInvalid,
    MqttPacketInvalidSize,
    MqttRcMessageRateTooHigh,
    MqttRcQuotaExceeded,
    MqttRcAdministrativeAction,
    MqttRcPayloadFormatInvalid,
    MqttRcRetainNotSupported,
    MqttRcQosNotSupported,
    MqttRcUseAnotherServer,
    MqttRcServerMoved,
    MqttRcSharedSubsNotSupported,
    MqttRcConnectionRateExceeded,
    MqttRcMaximumConnectTime,
    MqttRcSubscriptionIdsNotSupported,
    MqttRcWildcardSubsNotSupported,
}

/// The numeric value of a reason code on the wire.
pub open spec fn reason_code_value(c: Mqtt5ReturnCodes) -> u8 {
    match c {
        Mqtt5ReturnCodes::MqttRcSuccessNormalOrDisconnectionOrGrantedQos0 => 0,
        Mqtt5ReturnCodes::MqttRcGrantedQos1 => 1,
        Mqtt5ReturnCodes::MqttRcGrantedQos2 => 2,
        Mqtt5ReturnCodes::MqttRcDisconnectWithWillMsg => 4,
        Mqtt5ReturnCodes::MqttRcNoMatchingSubscribers => 16,
        Mqtt5ReturnCodes::MqttRcNoSubscriptionExisted => 17,
        Mqtt5ReturnCodes::MqttRcContinueAuthentication => 24,
        Mqtt5ReturnCodes::MqttRcReauthenticate => 25,
        Mqtt5ReturnCodes::MqttRcUnspecified => 128,
        Mqtt5ReturnCodes::MqttRcMalformedPacket => 129,
        Mqtt5ReturnCodes::MqttRcProtocolError => 130,
        Mqtt5ReturnCodes::MqttRcImplementationSpecific => 131,
        Mqtt5ReturnCodes::MqttRcUnsupportedProtocolVersion => 132,
        Mqtt5ReturnCodes::MqttRcClientidNotValid => 133,
        Mqtt5ReturnCodes::MqttRcBadUsernameOrPassword => 134,
        Mqtt5ReturnCodes::MqttRcNotAuthorized => 135,
        Mqtt5ReturnCodes::MqttRcServerUnavailable => 136,
        Mqtt5ReturnCodes::MqttRcServerBusy => 137,
        Mqtt5ReturnCodes::MqttRcBanned => 138,
        Mqtt5ReturnCodes::MqttRcServerShuttingDown => 139,
        Mqtt5ReturnCodes::MqttRcBadAuthenticationMethod => 140,
        Mqtt5ReturnCodes::MqttRcKeepAliveTimeout => 141,
        Mqtt5ReturnCodes::MqttRcSessionTakenOver => 142,
        Mqtt5ReturnCodes::MqttRcTopicFilterInvalid => 143,
        Mqtt5ReturnCodes::MqttRcTopicNameInvalid => 144,
        Mqtt5ReturnCodes::MqttRcPacketIdInUse => 145,
        Mqtt5ReturnCodes::MqttRcPacketIdNotFound => 146,
        Mqtt5ReturnCodes::MqttRcReceiveMaximumExceeded => 147,
        Mqtt5ReturnCodes::MqttRcTopicAliasInvalid => 148,
        Mqtt5ReturnCodes::MqttPacketInvalidSize => 149,
        Mqtt5ReturnCodes::MqttRcMessageRateTooHigh => 150,
        Mqtt5ReturnCodes::MqttRcQuotaExceeded => 151,
        Mqtt5ReturnCodes::MqttRcAdministrativeAction => 152,
        Mqtt5ReturnCodes::MqttRcPayloadFormatInvalid => 153,
        Mqtt5ReturnCodes::MqttRcRetainNotSupported => 154,
        Mqtt5ReturnCodes::MqttRcQosNotSupported => 155,
        Mqtt5ReturnCodes::MqttRcUseAnotherServer => 156,
        Mqtt5ReturnCodes::MqttRcServerMoved => 157,
        Mqtt5ReturnCodes::MqttRcSharedSubsNotSupported => 158,
        Mqtt5ReturnCodes::MqttRcConnectionRateExceeded => 159,
        Mqtt5ReturnCodes::MqttRcMaximumConnectTime => 160,
        Mqtt5ReturnCodes::MqttRcSubscriptionIdsNotSupported => 161,
        Mqtt5ReturnCodes::MqttRcWildcardSubsNotSupported => 162,
    }
}

impl Mqtt5ReturnCodes {
    /// The numeric value of this reason code.
    pub fn code(&self) -> (r: u8)
        ensures
            r == reason_code_value(*self),
    {
        match self {
            Mqtt5ReturnCodes::MqttRcSuccessNormalOrDisconnectionOrGrantedQos0 => 0,
            Mqtt5ReturnCodes::MqttRcGrantedQos1 => 1,
            Mqtt5ReturnCodes::MqttRcGrantedQos2 => 2,
            Mqtt5ReturnCodes::MqttRcDisconnectWithWillMsg => 4,
            Mqtt5ReturnCodes::MqttRcNoMatchingSubscribers => 16,
            Mqtt5ReturnCodes::MqttRcNoSubscriptionExisted => 17,
            Mqtt5ReturnCodes::MqttRcContinueAuthentication => 24,
            Mqtt5ReturnCodes::MqttRcReauthenticate => 25,
            Mqtt5ReturnCodes::MqttRcUnspecified => 128,
            Mqtt5ReturnCodes::MqttRcMalformedPacket => 129,
            Mqtt5ReturnCodes::MqttRcProtocolError => 130,
            Mqtt5ReturnCodes::MqttRcImplementationSpecific => 131,
            Mqtt5ReturnCodes::MqttRcUnsupportedProtocolVersion => 132,
            Mqtt5ReturnCodes::MqttRcClientidNotValid => 133,
            Mqtt5ReturnCodes::MqttRcBadUsernameOrPassword => 134,
            Mqtt5ReturnCodes::MqttRcNotAuthorized => 135,
            Mqtt5ReturnCodes::MqttRcServerUnavailable => 136,
            Mqtt5ReturnCodes::MqttRcServerBusy => 137,
            Mqtt5ReturnCodes::MqttRcBanned => 138,
            Mqtt5ReturnCodes::MqttRcServerShuttingDown => 139,
            Mqtt5ReturnCodes::MqttRcBadAuthenticationMethod => 140,
            Mqtt5ReturnCodes::MqttRcKeepAliveTimeout => 141,
            Mqtt5ReturnCodes::MqttRcSessionTakenOver => 142,
            Mqtt5ReturnCodes::MqttRcTopicFilterInvalid => 143,
            Mqtt5ReturnCodes::MqttRcTopicNameInvalid => 144,
            Mqtt5ReturnCodes::MqttRcPacketIdInUse => 145,
            Mqtt5ReturnCodes::MqttRcPacketIdNotFound => 146,
            Mqtt5ReturnCodes::MqttRcReceiveMaximumExceeded => 147,
            Mqtt5ReturnCodes::MqttRcTopicAliasInvalid => 148,
            Mqtt5ReturnCodes::MqttPacketInvalidSize => 149,
            Mqtt5ReturnCodes::MqttRcMessageRateTooHigh => 150,
            Mqtt5ReturnCodes::MqttRcQuotaExceeded => 151,
            Mqtt5ReturnCodes::MqttRcAdministrativeAction => 152,
            Mqtt5ReturnCodes::MqttRcPayloadFormatInvalid => 153,
            Mqtt5ReturnCodes::MqttRcRetainNotSupported => 154,
            Mqtt5ReturnCodes::MqttRcQosNotSupported => 155,
            Mqtt5ReturnCodes::MqttRcUseAnotherServer => 156,
            Mqtt5ReturnCodes::MqttRcServerMoved => 157,
            Mqtt5ReturnCodes::MqttRcSharedSubsNotSupported => 158,
            Mqtt5ReturnCodes::MqttRcConnectionRateExceeded => 159,
            Mqtt5ReturnCodes::MqttRcMaximumConnectTime => 160,
            Mqtt5ReturnCodes::MqttRcSubscriptionIdsNotSupported => 161,
            Mqtt5ReturnCodes::MqttRcWildcardSubsNotSupported => 162,
        }
    }
}

/// An error carrying a reason code.
#[derive(Clone, Copy, Debug, PartialEq, Eq, Structural)]
pub struct MqttError {
    pub error: Mqtt5ReturnCodes,
}

impl MqttError {
    /// The reason code carried by this error.
    pub fn code(&self) -> (r: u8)
        ensures
            r == reason_code_value(self.error),
    {
        self.error.code()
    }
}

} // verus!
