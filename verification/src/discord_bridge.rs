//! The bridge over which Discord users ask for alarms: settings, credentials and messages.
use base64::engine::general_purpose::URL_SAFE_NO_PAD;
use base64::Engine;
use rand::RngCore;
use vstd::prelude::*;

use crate::alarm;
use crate::http;
use crate::http::HttpStatus;
use crate::models;
use crate::order;
use crate::order::{put_in_order, Ranked, Sortable};
use crate::requesters;
use crate::seqs;
use crate::text;
use crate::time::LocalDateTime;

verus! {

/// The milliseconds between two polls.
pub const POLL_INTERVAL_MILLIS: u64 = 5000;

/// The milliseconds after which a request is given up.
pub const HTTP_TIMEOUT_MILLIS: u64 = 10000;

pub const DEFAULT_BRIDGE_URL: &'static str = "https://aagedb.zyhlerservers.ddns.net";

/// A Discord user who may ask for alarms, with the name to show.
#[derive(Debug, PartialEq, Eq)]
pub struct AllowedDiscordRequester {
    pub discord_user_id: String,
    pub display_name: String,
}

/// The model of an allowed requester.
#[verifier::ext_equal]
pub struct RequesterModel {
    pub discord_user_id: Seq<char>,
    pub display_name: Seq<char>,
}

impl DeepView for AllowedDiscordRequester {
    type V = RequesterModel;

    open spec fn deep_view(&self) -> RequesterModel {
        RequesterModel {
            discord_user_id: self.discord_user_id@,
            display_name: self.display_name@,
        }
    }
}

impl Clone for AllowedDiscordRequester {
    fn clone(&self) -> (copy: AllowedDiscordRequester)
        ensures
            copy == *self,
    {
        AllowedDiscordRequester {
            discord_user_id: self.discord_user_id.clone(),
            display_name: self.display_name.clone(),
        }
    }
}

impl Ranked for RequesterModel {
    open spec fn precedes(self, other: Self) -> bool {
        text::text_before(self.discord_user_id, other.discord_user_id)
    }

    proof fn precedes_is_asymmetric(a: Self, b: Self) {
        Seq::<char>::precedes_is_asymmetric(a.discord_user_id, b.discord_user_id);
    }

    proof fn precedes_is_negatively_transitive(a: Self, b: Self, c: Self) {
        Seq::<char>::precedes_is_negatively_transitive(
            a.discord_user_id,
            b.discord_user_id,
            c.discord_user_id,
        );
    }
}

impl Sortable for AllowedDiscordRequester {
    fn comes_before(&self, other: &AllowedDiscordRequester) -> (before: bool) {
        text::is_text_before(self.discord_user_id.as_str(), other.discord_user_id.as_str())
    }
}

/// What is kept of the bridge between launches.
#[derive(Debug, PartialEq)]
pub struct DiscordBridgeSettings {
    pub bridge_url: String,
    pub companion_id: String,
    pub api_token: String,
    pub pairing_code: String,
    pub pairing_expires_at: Option<LocalDateTime>,
    pub paired_discord_user_id: Option<String>,
    pub paired_discord_user_label: Option<String>,
    pub allowed_requester_ids: String,
    pub allowed_requesters: Vec<AllowedDiscordRequester>,
    pub poll_enabled: bool,
}

/// The model of the bridge settings.
#[verifier::ext_equal]
pub struct BridgeSettingsModel {
    pub bridge_url: Seq<char>,
    pub companion_id: Seq<char>,
    pub api_token: Seq<char>,
    pub pairing_code: Seq<char>,
    pub pairing_expires_at: Option<LocalDateTime>,
    pub paired_discord_user_id: Option<Seq<char>>,
    pub paired_discord_user_label: Option<Seq<char>>,
    pub allowed_requester_ids: Seq<char>,
    pub allowed_requesters: Seq<RequesterModel>,
    pub poll_enabled: bool,
}

impl DeepView for DiscordBridgeSettings {
    type V = BridgeSettingsModel;

    open spec fn deep_view(&self) -> BridgeSettingsModel {
        BridgeSettingsModel {
            bridge_url: self.bridge_url@,
            companion_id: self.companion_id@,
            api_token: self.api_token@,
            pairing_code: self.pairing_code@,
            pairing_expires_at: self.pairing_expires_at,
            paired_discord_user_id: self.paired_discord_user_id.deep_view(),
            paired_discord_user_label: self.paired_discord_user_label.deep_view(),
            allowed_requester_ids: self.allowed_requester_ids@,
            allowed_requesters: self.allowed_requesters.deep_view(),
            poll_enabled: self.poll_enabled,
        }
    }
}

impl Clone for DiscordBridgeSettings {
    fn clone(&self) -> (copy: DiscordBridgeSettings)
        ensures
            copy.deep_view() == self.deep_view(),
    {
        let allowed_requesters = self.allowed_requesters.clone();
        assert(allowed_requesters.deep_view() =~= self.allowed_requesters.deep_view());
        DiscordBridgeSettings {
            bridge_url: self.bridge_url.clone(),
            companion_id: self.companion_id.clone(),
            api_token: self.api_token.clone(),
            pairing_code: self.pairing_code.clone(),
            pairing_expires_at: self.pairing_expires_at,
            paired_discord_user_id: self.paired_discord_user_id.clone(),
            paired_discord_user_label: self.paired_discord_user_label.clone(),
            allowed_requester_ids: self.allowed_requester_ids.clone(),
            allowed_requesters,
            poll_enabled: self.poll_enabled,
        }
    }
}

/// The settings before anything was set up.
pub open spec fn fresh_settings() -> BridgeSettingsModel {
    BridgeSettingsModel {
        bridge_url: DEFAULT_BRIDGE_URL@,
        companion_id: Seq::empty(),
        api_token: Seq::empty(),
        pairing_code: Seq::empty(),
        pairing_expires_at: None,
        paired_discord_user_id: None,
        paired_discord_user_label: None,
        allowed_requester_ids: Seq::empty(),
        allowed_requesters: Seq::empty(),
        poll_enabled: false,
    }
}

impl Default for DiscordBridgeSettings {
    fn default() -> (settings: DiscordBridgeSettings)
        ensures
            settings.deep_view() == fresh_settings(),
    {
        let allowed_requesters: Vec<AllowedDiscordRequester> = Vec::new();
        assert(allowed_requesters.deep_view() =~= Seq::empty());
        DiscordBridgeSettings {
            bridge_url: DEFAULT_BRIDGE_URL.to_owned(),
            companion_id: String::new(),
            api_token: String::new(),
            pairing_code: String::new(),
            pairing_expires_at: None,
            paired_discord_user_id: None,
            paired_discord_user_label: None,
            allowed_requester_ids: String::new(),
            allowed_requesters,
            poll_enabled: false,
        }
    }
}

/// The bridge URL to use where a saved one may be missing or blank.
pub fn saved_bridge_url(saved: Option<String>) -> (url: String)
    ensures
        url@ == match saved {
            Some(s) => if text::is_blank(s@) {
                DEFAULT_BRIDGE_URL@
            } else {
                s@
            },
            None => DEFAULT_BRIDGE_URL@,
        },
{
    match saved {
        Some(url) => {
            if text::blank(url.as_str()) {
                DEFAULT_BRIDGE_URL.to_owned()
            } else {
                url
            }
        },
        None => DEFAULT_BRIDGE_URL.to_owned(),
    }
}

/// What went wrong with the bridge.
#[derive(Debug)]
pub enum BridgeError {
    MissingBridgeUrl,
    MissingCredentials,
    Request,
    HttpStatus { status: HttpStatus, body: String },
}

/// The model of a bridge error.
#[verifier::ext_equal]
pub enum BridgeErrorModel {
    MissingBridgeUrl,
    MissingCredentials,
    Request,
    HttpStatus { status: HttpStatus, body: Seq<char> },
}

impl DeepView for BridgeError {
    type V = BridgeErrorModel;

    open spec fn deep_view(&self) -> BridgeErrorModel {
        match *self {
            BridgeError::MissingBridgeUrl => BridgeErrorModel::MissingBridgeUrl,
            BridgeError::MissingCredentials => BridgeErrorModel::MissingCredentials,
            BridgeError::Request => BridgeErrorModel::Request,
            BridgeError::HttpStatus { status, body } => BridgeErrorModel::HttpStatus {
                status,
                body: body@,
            },
        }
    }
}

impl BridgeErrorModel {
    /// What the user is told.
    pub open spec fn words(self) -> Seq<char> {
        match self {
            BridgeErrorModel::MissingBridgeUrl => "bridge URL is blank"@,
            BridgeErrorModel::MissingCredentials => "companion credentials are missing"@,
            BridgeErrorModel::Request => "bridge request failed"@,
            BridgeErrorModel::HttpStatus { status, body } => "bridge returned "@
                + http::status_text(status.number()) + ": "@ + body,
        }
    }
}

impl BridgeError {
    /// What the user is told.
    pub fn message(&self) -> (message: String)
        ensures
            message@ == self.deep_view().words(),
    {
        match self {
            BridgeError::MissingBridgeUrl => "bridge URL is blank".to_owned(),
            BridgeError::MissingCredentials => "companion credentials are missing".to_owned(),
            BridgeError::Request => "bridge request failed".to_owned(),
            BridgeError::HttpStatus { status, body } => {
                let mut message = "bridge returned ".to_owned();
                message.append(status.text().as_str());
                message.append(": ");
                message.append(body.as_str());
                message
            },
        }
    }
}

/// Where the bridge is, and who asks there.
#[derive(Debug)]
pub struct BridgeClientConfig {
    bridge_url: String,
    companion_id: String,
    api_token: String,
}

/// The model of a client configuration.
#[verifier::ext_equal]
pub struct ClientConfigModel {
    pub bridge_url: Seq<char>,
    pub companion_id: Seq<char>,
    pub api_token: Seq<char>,
}

impl DeepView for BridgeClientConfig {
    type V = ClientConfigModel;

    closed spec fn deep_view(&self) -> ClientConfigModel {
        ClientConfigModel {
            bridge_url: self.bridge_url@,
            companion_id: self.companion_id@,
            api_token: self.api_token@,
        }
    }
}

/// The address of the bridge without white space around it and slashes behind it.
pub open spec fn tidy_url(url: Seq<char>) -> Seq<char> {
    text::without_trailing(text::trimmed(url), '/')
}

/// The client configuration for a URL, an id and a token, or what is missing.
pub open spec fn client_config_of(
    url: Seq<char>,
    id: Seq<char>,
    token: Seq<char>,
) -> Result<ClientConfigModel, BridgeErrorModel> {
    if tidy_url(url).len() == 0 {
        Err(BridgeErrorModel::MissingBridgeUrl)
    } else if text::is_blank(id) || text::is_blank(token) {
        Err(BridgeErrorModel::MissingCredentials)
    } else {
        Ok(
            ClientConfigModel {
                bridge_url: tidy_url(url),
                companion_id: text::trimmed(id),
                api_token: text::trimmed(token),
            },
        )
    }
}

impl BridgeClientConfig {
    /// The client configuration for a URL, an id and a token, or what is missing.
    pub fn new(bridge_url: &str, companion_id: &str, api_token: &str) -> (made: Result<
        BridgeClientConfig,
        BridgeError,
    >)
        ensures
            models::result_model(made) == client_config_of(bridge_url@, companion_id@, api_token@),
    {
        let url = text::trim_end_char(text::trim(bridge_url), '/');
        let id = text::trim(companion_id);
        let token = text::trim(api_token);
        if url.is_empty() {
            return Err(BridgeError::MissingBridgeUrl);
        }
        if id.is_empty() || token.is_empty() {
            return Err(BridgeError::MissingCredentials);
        }
        Ok(
            BridgeClientConfig {
                bridge_url: url.to_owned(),
                companion_id: id.to_owned(),
                api_token: token.to_owned(),
            },
        )
    }
}

impl Clone for BridgeClientConfig {
    fn clone(&self) -> (copy: BridgeClientConfig)
        ensures
            copy == *self,
    {
        BridgeClientConfig {
            bridge_url: self.bridge_url.clone(),
            companion_id: self.companion_id.clone(),
            api_token: self.api_token.clone(),
        }
    }
}

impl BridgeSettingsModel {
    /// Whether all is there that polling needs.
    pub open spec fn can_poll(self) -> bool {
        !text::is_blank(self.bridge_url) && !text::is_blank(self.companion_id) && !text::is_blank(
            self.api_token,
        )
    }

    /// The client configuration that these settings give, or what is missing.
    pub open spec fn client_config(self) -> Result<ClientConfigModel, BridgeErrorModel> {
        client_config_of(self.bridge_url, self.companion_id, self.api_token)
    }
}

impl DiscordBridgeSettings {
    /// The client configuration that these settings give, or what is missing.
    pub fn client_config(&self) -> (made: Result<BridgeClientConfig, BridgeError>)
        ensures
            models::result_model(made) == self.deep_view().client_config(),
    {
        BridgeClientConfig::new(
            self.bridge_url.as_str(),
            self.companion_id.as_str(),
            self.api_token.as_str(),
        )
    }

    /// Whether all is there that polling needs.
    pub fn can_poll(&self) -> (can: bool)
        ensures
            can == self.deep_view().can_poll(),
    {
        !text::blank(self.bridge_url.as_str()) && !text::blank(self.companion_id.as_str())
            && !text::blank(self.api_token.as_str())
    }
}

/// Calls `fill_bytes` on the generator that rand's `thread_rng` gives.
///
/// What comes back is a matter of chance. What is claimed is the number of bytes. Where the
/// system has no randomness to give, `fill_bytes` does not return.
#[verifier::external_body]
fn random_bytes(count: usize) -> (bytes: Vec<u8>)
    requires
        count <= 1000,
    ensures
        bytes@.len() == count,
{
    let mut bytes = vec![0u8; count];
    rand::thread_rng().fill_bytes(&mut bytes);
    bytes
}

/// The base 64 text of bytes, in the alphabet for URLs and without padding.
pub uninterp spec fn url_safe_base64(bytes: Seq<u8>) -> Seq<char>;

/// Whether a character is in the base 64 alphabet for URLs.
pub open spec fn in_url_alphabet(c: char) -> bool {
    'A' <= c <= 'Z' || 'a' <= c <= 'z' || '0' <= c <= '9' || c == '-' || c == '_'
}

/// Calls `encode` of base64's engine `URL_SAFE_NO_PAD`.
///
/// The contract names the text, and says of it that it has four characters for each three
/// bytes, two or three for what is left, and that all are in the alphabet for URLs.
#[verifier::external_body]
fn encode_url_safe(bytes: &Vec<u8>) -> (text: String)
    requires
        bytes@.len() <= 1000,
    ensures
        text@ == url_safe_base64(bytes@),
        text@.len() == (4 * bytes@.len() + 2) / 3,
        forall|i: int| 0 <= i < text@.len() ==> in_url_alphabet(#[trigger] text@[i]),
{
    URL_SAFE_NO_PAD.encode(bytes)
}

/// The settings with the credentials that were missing.
pub open spec fn with_credentials(
    settings: BridgeSettingsModel,
    new_id: Seq<char>,
    new_token: Seq<char>,
) -> BridgeSettingsModel {
    BridgeSettingsModel {
        companion_id: if text::is_blank(settings.companion_id) {
            new_id
        } else {
            settings.companion_id
        },
        api_token: if text::is_blank(settings.api_token) {
            new_token
        } else {
            settings.api_token
        },
        ..settings
    }
}

/// Whether the settings lack an id or a token.
pub open spec fn lacks_credentials(settings: BridgeSettingsModel) -> bool {
    text::is_blank(settings.companion_id) || text::is_blank(settings.api_token)
}

/// Puts an id and a token where they are missing, and says whether anything was missing.
pub fn fill_credentials(settings: &mut DiscordBridgeSettings, new_id: String, new_token: String) -> (
changed: bool)
    ensures
        changed == lacks_credentials(old(settings).deep_view()),
        final(settings).deep_view() == with_credentials(
            old(settings).deep_view(),
            new_id@,
            new_token@,
        ),
{
    let mut changed: bool = false;
    if text::blank(settings.companion_id.as_str()) {
        settings.companion_id = new_id;
        changed = true;
    }
    if text::blank(settings.api_token.as_str()) {
        settings.api_token = new_token;
        changed = true;
    }
    changed
}

/// Whether a text has the form of an id that was made up: 32 hexadecimal digits.
pub open spec fn is_companion_id(id: Seq<char>) -> bool {
    &&& id.len() == 32
    &&& forall|i: int| 0 <= i < id.len() ==> text::is_small_hex(#[trigger] id[i])
}

/// Whether a text has the form of a token that was made up: 43 characters, all in the base 64
/// alphabet for URLs.
pub open spec fn is_api_token(token: Seq<char>) -> bool {
    &&& token.len() == 43
    &&& forall|i: int| 0 <= i < token.len() ==> in_url_alphabet(#[trigger] token[i])
}

/// The id of a companion: the hexadecimal digits of 16 bytes.
pub(crate) fn generate_companion_id() -> (id: String)
    ensures
        exists|bytes: Seq<u8>| bytes.len() == 16 && id@ == #[trigger] text::hex_text(bytes),
        is_companion_id(id@),
{
    let bytes = random_bytes(16);
    proof {
        text::hex_text_is_tight(bytes@);
    }
    text::hex_bytes(&bytes)
}

/// The token of a companion: the base 64 text of 32 bytes.
pub(crate) fn generate_api_token() -> (token: String)
    ensures
        exists|bytes: Seq<u8>| bytes.len() == 32 && token@ == #[trigger] url_safe_base64(bytes),
        is_api_token(token@),
{
    let bytes = random_bytes(32);
    encode_url_safe(&bytes)
}

/// Makes up an id and a token where they are missing, and says whether anything was missing.
pub fn ensure_credentials(settings: &mut DiscordBridgeSettings) -> (changed: bool)
    ensures
        changed == lacks_credentials(old(settings).deep_view()),
        !changed ==> final(settings).deep_view() == old(settings).deep_view(),
        exists|id_bytes: Seq<u8>, token_bytes: Seq<u8>|
            id_bytes.len() == 16 && token_bytes.len() == 32 && final(settings).deep_view()
                == with_credentials(
                old(settings).deep_view(),
                #[trigger] text::hex_text(id_bytes),
                #[trigger] url_safe_base64(token_bytes),
            ),
        !lacks_credentials(final(settings).deep_view()),
        text::is_blank(old(settings).companion_id@) ==> is_companion_id(
            final(settings).companion_id@,
        ),
        text::is_blank(old(settings).api_token@) ==> is_api_token(final(settings).api_token@),
{
    let new_id = generate_companion_id();
    let new_token = generate_api_token();
    proof {
        let id_bytes = choose|bytes: Seq<u8>|
            bytes.len() == 16 && new_id@ == #[trigger] text::hex_text(bytes);
        text::hex_text_is_tight(id_bytes);
        text::trimmed_of_tight(new_id@);
        text::trimmed_of_tight(new_token@);
    }
    fill_credentials(settings, new_id, new_token)
}

/// Credentials are made up at most once: where none is missing, none is replaced, whatever was
/// made up.
pub proof fn credentials_are_made_up_once(
    settings: BridgeSettingsModel,
    new_id: Seq<char>,
    new_token: Seq<char>,
)
    requires
        !lacks_credentials(settings),
    ensures
        with_credentials(settings, new_id, new_token) == settings,
{
}

/// Settings that lack no credentials and have a bridge URL are enough for polling.
pub proof fn credentials_allow_polling(settings: BridgeSettingsModel)
    requires
        !lacks_credentials(settings),
        !text::is_blank(settings.bridge_url),
    ensures
        settings.can_poll(),
{
}

/// A number as eight hexadecimal digits with a dash in the middle.
pub open spec fn pairing_code_text(value: u32) -> Seq<char> {
    seq![
        text::hex_char((value / 0x1000_0000) as nat, true),
        text::hex_char((value / 0x100_0000 % 16) as nat, true),
        text::hex_char((value / 0x10_0000 % 16) as nat, true),
        text::hex_char((value / 0x1_0000 % 16) as nat, true),
        '-',
        text::hex_char((value / 0x1000 % 16) as nat, true),
        text::hex_char((value / 0x100 % 16) as nat, true),
        text::hex_char((value / 0x10 % 16) as nat, true),
        text::hex_char((value % 16) as nat, true),
    ]
}

/// A number as eight hexadecimal digits with a dash in the middle.
pub fn display_pairing_code(value: u32) -> (code: String)
    ensures
        code@ == pairing_code_text(value),
{
    let mut code = String::new();
    code.push(text::hex_digit((value / 0x1000_0000) as u8, true));
    code.push(text::hex_digit((value / 0x100_0000 % 16) as u8, true));
    code.push(text::hex_digit((value / 0x10_0000 % 16) as u8, true));
    code.push(text::hex_digit((value / 0x1_0000 % 16) as u8, true));
    code.push('-');
    code.push(text::hex_digit((value / 0x1000 % 16) as u8, true));
    code.push(text::hex_digit((value / 0x100 % 16) as u8, true));
    code.push(text::hex_digit((value / 0x10 % 16) as u8, true));
    code.push(text::hex_digit((value % 16) as u8, true));
    assert(code@ =~= pairing_code_text(value));
    code
}

/// A pairing code by chance.
pub fn generate_pairing_code() -> (code: String)
    ensures
        exists|value: u32| code@ == #[trigger] pairing_code_text(value),
{
    let bytes = random_bytes(4);
    let value: u32 = bytes[0] as u32 + bytes[1] as u32 * 0x100 + bytes[2] as u32 * 0x1_0000
        + bytes[3] as u32 * 0x100_0000;
    display_pairing_code(value)
}

/// What the bridge answers when a companion registers for pairing.
#[derive(Debug)]
pub struct PairingRegistrationResponse {
    pub pairing_code: String,
    pub expires_at_unix: i64,
}

/// An alarm that a Discord user asks for.
#[derive(Debug, PartialEq)]
pub struct RemoteAlarmRequest {
    pub id: u64,
    pub requester_id: String,
    pub requester_label: Option<String>,
    pub target_id: String,
    pub hour: u8,
    pub minute: u8,
    pub label: String,
    pub created_at_unix: i64,
    pub expires_at_unix: i64,
}

/// The model of a remote alarm request.
#[verifier::ext_equal]
pub struct RemoteRequestModel {
    pub id: u64,
    pub requester_id: Seq<char>,
    pub requester_label: Option<Seq<char>>,
    pub target_id: Seq<char>,
    pub hour: u8,
    pub minute: u8,
    pub label: Seq<char>,
    pub created_at_unix: i64,
    pub expires_at_unix: i64,
}

impl DeepView for RemoteAlarmRequest {
    type V = RemoteRequestModel;

    open spec fn deep_view(&self) -> RemoteRequestModel {
        RemoteRequestModel {
            id: self.id,
            requester_id: self.requester_id@,
            requester_label: self.requester_label.deep_view(),
            target_id: self.target_id@,
            hour: self.hour,
            minute: self.minute,
            label: self.label@,
            created_at_unix: self.created_at_unix,
            expires_at_unix: self.expires_at_unix,
        }
    }
}

impl Clone for RemoteAlarmRequest {
    fn clone(&self) -> (copy: RemoteAlarmRequest)
        ensures
            copy == *self,
    {
        RemoteAlarmRequest {
            id: self.id,
            requester_id: self.requester_id.clone(),
            requester_label: self.requester_label.clone(),
            target_id: self.target_id.clone(),
            hour: self.hour,
            minute: self.minute,
            label: self.label.clone(),
            created_at_unix: self.created_at_unix,
            expires_at_unix: self.expires_at_unix,
        }
    }
}

impl RemoteRequestModel {
    /// The time that is asked for, the way the app shows times.
    pub open spec fn time_text(self) -> Seq<char> {
        alarm::dotted(self.hour as nat, self.minute as nat)
    }
}

impl RemoteAlarmRequest {
    /// The time that is asked for, the way the app shows times.
    pub fn time_text(&self) -> (text: String)
        ensures
            text@ == self.deep_view().time_text(),
    {
        let mut text = String::new();
        text::push_two_digits(&mut text, self.hour);
        text.push('.');
        text::push_two_digits(&mut text, self.minute);
        assert(text@ =~= self.deep_view().time_text());
        text
    }
}

/// The time of a request is read as the hour and the minute of the request.
pub proof fn request_time_reads_back(request: RemoteRequestModel)
    requires
        request.hour < 24,
        request.minute < 60,
    ensures
        alarm::time_of_text(request.time_text()) == Some(
            (request.hour as nat, request.minute as nat),
        ),
{
    alarm::normalized_time_reads_back(request.hour as nat, request.minute as nat);
}

/// An invitation that the owner made on Discord.
#[derive(Debug, PartialEq)]
pub struct CompanionInvite {
    pub id: u64,
    pub owner_id: String,
    pub invitee_id: String,
    pub invitee_label: String,
    pub created_at_unix: i64,
    pub expires_at_unix: i64,
}

/// The model of an invitation.
#[verifier::ext_equal]
pub struct InviteModel {
    pub id: u64,
    pub owner_id: Seq<char>,
    pub invitee_id: Seq<char>,
    pub invitee_label: Seq<char>,
    pub created_at_unix: i64,
    pub expires_at_unix: i64,
}

impl DeepView for CompanionInvite {
    type V = InviteModel;

    open spec fn deep_view(&self) -> InviteModel {
        InviteModel {
            id: self.id,
            owner_id: self.owner_id@,
            invitee_id: self.invitee_id@,
            invitee_label: self.invitee_label@,
            created_at_unix: self.created_at_unix,
            expires_at_unix: self.expires_at_unix,
        }
    }
}

impl Clone for CompanionInvite {
    fn clone(&self) -> (copy: CompanionInvite)
        ensures
            copy == *self,
    {
        CompanionInvite {
            id: self.id,
            owner_id: self.owner_id.clone(),
            invitee_id: self.invitee_id.clone(),
            invitee_label: self.invitee_label.clone(),
            created_at_unix: self.created_at_unix,
            expires_at_unix: self.expires_at_unix,
        }
    }
}

/// What the bridge answers to a poll.
#[derive(Debug)]
pub struct PollRequestsResponse {
    pub paired: bool,
    pub paired_discord_user_id: Option<String>,
    pub paired_discord_user_label: Option<String>,
    pub requests: Vec<RemoteAlarmRequest>,
    pub invites: Vec<CompanionInvite>,
}

/// The model of the answer to a poll.
#[verifier::ext_equal]
pub struct PollModel {
    pub paired: bool,
    pub paired_discord_user_id: Option<Seq<char>>,
    pub paired_discord_user_label: Option<Seq<char>>,
    pub requests: Seq<RemoteRequestModel>,
    pub invites: Seq<InviteModel>,
}

impl DeepView for PollRequestsResponse {
    type V = PollModel;

    open spec fn deep_view(&self) -> PollModel {
        PollModel {
            paired: self.paired,
            paired_discord_user_id: self.paired_discord_user_id.deep_view(),
            paired_discord_user_label: self.paired_discord_user_label.deep_view(),
            requests: self.requests.deep_view(),
            invites: self.invites.deep_view(),
        }
    }
}

/// What becomes of a remote alarm request.
#[derive(Clone, Copy, Debug, PartialEq, Eq, Structural)]
pub enum RequestStatus {
    Accepted,
    Rejected,
}

impl RequestStatus {
    /// The word that the bridge knows for it.
    pub open spec fn word(self) -> Seq<char> {
        match self {
            RequestStatus::Accepted => "accepted"@,
            RequestStatus::Rejected => "rejected"@,
        }
    }

    /// The word that the bridge knows for it.
    pub fn as_str(self) -> (word: &'static str)
        ensures
            word@ == self.word(),
    {
        match self {
            RequestStatus::Accepted => "accepted",
            RequestStatus::Rejected => "rejected",
        }
    }
}

impl DeepView for RequestStatus {
    type V = RequestStatus;

    open spec fn deep_view(&self) -> RequestStatus {
        *self
    }
}

/// What becomes of an invitation.
#[derive(Clone, Copy, Debug, PartialEq, Eq, Structural)]
pub enum InviteStatus {
    Allowed,
    Rejected,
}

impl InviteStatus {
    /// The word that the bridge knows for it.
    pub open spec fn word(self) -> Seq<char> {
        match self {
            InviteStatus::Allowed => "allowed"@,
            InviteStatus::Rejected => "rejected"@,
        }
    }

    /// The word that the bridge knows for it.
    pub fn as_str(self) -> (word: &'static str)
        ensures
            word@ == self.word(),
    {
        match self {
            InviteStatus::Allowed => "allowed",
            InviteStatus::Rejected => "rejected",
        }
    }
}

impl DeepView for InviteStatus {
    type V = InviteStatus;

    open spec fn deep_view(&self) -> InviteStatus {
        *self
    }
}

/// What a message to the bridge carries.
#[derive(Debug, PartialEq, Eq)]
pub enum BridgeBody {
    Nothing,
    Registration { companion_id: String, api_token: String, pairing_code: String },
    RequestStatus { status: String, reason: Option<String> },
    InviteStatus { status: String },
}

/// The model of what a message carries.
#[verifier::ext_equal]
pub enum BridgeBodyModel {
    Nothing,
    Registration { companion_id: Seq<char>, api_token: Seq<char>, pairing_code: Seq<char> },
    RequestStatus { status: Seq<char>, reason: Option<Seq<char>> },
    InviteStatus { status: Seq<char> },
}

impl DeepView for BridgeBody {
    type V = BridgeBodyModel;

    open spec fn deep_view(&self) -> BridgeBodyModel {
        match *self {
            BridgeBody::Nothing => BridgeBodyModel::Nothing,
            BridgeBody::Registration { companion_id, api_token, pairing_code } =>
                BridgeBodyModel::Registration {
                companion_id: companion_id@,
                api_token: api_token@,
                pairing_code: pairing_code@,
            },
            BridgeBody::RequestStatus { status, reason } => BridgeBodyModel::RequestStatus {
                status: status@,
                reason: reason.deep_view(),
            },
            BridgeBody::InviteStatus { status } => BridgeBodyModel::InviteStatus {
                status: status@,
            },
        }
    }
}

/// A message to the bridge: where it goes, the token that it is sent under, and what it
/// carries. A message that carries something is posted; one that carries nothing is a question.
#[derive(Debug, PartialEq, Eq)]
pub struct BridgeMessage {
    pub url: String,
    pub bearer_token: Option<String>,
    pub body: BridgeBody,
}

/// The model of a message to the bridge.
#[verifier::ext_equal]
pub struct BridgeMessageModel {
    pub url: Seq<char>,
    pub bearer_token: Option<Seq<char>>,
    pub body: BridgeBodyModel,
}

impl DeepView for BridgeMessage {
    type V = BridgeMessageModel;

    open spec fn deep_view(&self) -> BridgeMessageModel {
        BridgeMessageModel {
            url: self.url@,
            bearer_token: self.bearer_token.deep_view(),
            body: self.body.deep_view(),
        }
    }
}

/// The message that registers a companion for pairing.
pub open spec fn registration_message(config: ClientConfigModel, code: Seq<char>) -> BridgeMessageModel {
    BridgeMessageModel {
        url: config.bridge_url + "/bridge/pairings"@,
        bearer_token: None,
        body: BridgeBodyModel::Registration {
            companion_id: config.companion_id,
            api_token: config.api_token,
            pairing_code: code,
        },
    }
}

/// The message that asks for requests and invitations.
pub open spec fn poll_message(config: ClientConfigModel) -> BridgeMessageModel {
    BridgeMessageModel {
        url: config.bridge_url + "/bridge/requests"@,
        bearer_token: Some(config.api_token),
        body: BridgeBodyModel::Nothing,
    }
}

/// The message that says what became of a request.
pub open spec fn request_report_message(
    config: ClientConfigModel,
    request_id: u64,
    status: RequestStatus,
    reason: Option<Seq<char>>,
) -> BridgeMessageModel {
    BridgeMessageModel {
        url: config.bridge_url + "/bridge/requests/"@ + text::decimal(request_id as nat)
            + "/status"@,
        bearer_token: Some(config.api_token),
        body: BridgeBodyModel::RequestStatus { status: status.word(), reason },
    }
}

/// The message that says what became of an invitation.
pub open spec fn invite_report_message(
    config: ClientConfigModel,
    invite_id: u64,
    status: InviteStatus,
) -> BridgeMessageModel {
    BridgeMessageModel {
        url: config.bridge_url + "/bridge/invites/"@ + text::decimal(invite_id as nat)
            + "/status"@,
        bearer_token: Some(config.api_token),
        body: BridgeBodyModel::InviteStatus { status: status.word() },
    }
}

impl BridgeClientConfig {
    fn url_with(&self, path: &str) -> (url: String)
        ensures
            url@ == self.deep_view().bridge_url + path@,
    {
        let mut url = self.bridge_url.clone();
        url.append(path);
        url
    }

    /// The message that registers a companion for pairing.
    pub fn pairing_registration(&self, pairing_code: &str) -> (message: BridgeMessage)
        ensures
            message.deep_view() == registration_message(self.deep_view(), pairing_code@),
    {
        BridgeMessage {
            url: self.url_with("/bridge/pairings"),
            bearer_token: None,
            body: BridgeBody::Registration {
                companion_id: self.companion_id.clone(),
                api_token: self.api_token.clone(),
                pairing_code: pairing_code.to_owned(),
            },
        }
    }

    /// The message that asks for requests and invitations.
    pub fn request_poll(&self) -> (message: BridgeMessage)
        ensures
            message.deep_view() == poll_message(self.deep_view()),
    {
        BridgeMessage {
            url: self.url_with("/bridge/requests"),
            bearer_token: Some(self.api_token.clone()),
            body: BridgeBody::Nothing,
        }
    }

    /// The message that says what became of a request.
    pub fn request_report(
        &self,
        request_id: u64,
        status: RequestStatus,
        reason: Option<String>,
    ) -> (message: BridgeMessage)
        ensures
            message.deep_view() == request_report_message(
                self.deep_view(),
                request_id,
                status,
                reason.deep_view(),
            ),
    {
        let mut url = self.url_with("/bridge/requests/");
        text::push_decimal(&mut url, request_id as u128);
        url.append("/status");
        BridgeMessage {
            url,
            bearer_token: Some(self.api_token.clone()),
            body: BridgeBody::RequestStatus { status: status.as_str().to_owned(), reason },
        }
    }

    /// The message that says what became of an invitation.
    pub fn invite_report(&self, invite_id: u64, status: InviteStatus) -> (message: BridgeMessage)
        ensures
            message.deep_view() == invite_report_message(self.deep_view(), invite_id, status),
    {
        let mut url = self.url_with("/bridge/invites/");
        text::push_decimal(&mut url, invite_id as u128);
        url.append("/status");
        BridgeMessage {
            url,
            bearer_token: Some(self.api_token.clone()),
            body: BridgeBody::InviteStatus { status: status.as_str().to_owned() },
        }
    }
}

/// Judges the reply of the bridge by its status. The text of a reply that could not be read
/// counts as empty.
pub fn check_reply(status: HttpStatus, body: Option<String>) -> (checked: Result<(), BridgeError>)
    ensures
        models::result_model(checked) == if 200 <= status.number() <= 299 {
            Ok(())
        } else {
            Err(
                BridgeErrorModel::HttpStatus {
                    status,
                    body: match body {
                        Some(b) => b@,
                        None => Seq::empty(),
                    },
                },
            )
        },
{
    if status.is_success() {
        Ok(())
    } else {
        Err(
            BridgeError::HttpStatus {
                status,
                body: match body {
                    Some(b) => b,
                    None => String::new(),
                },
            },
        )
    }
}

/// The requesters after one was remembered: a name that is not blank replaces the one that was
/// known, and a requester who was not known is added.
pub open spec fn requesters_with(
    requesters: Seq<RequesterModel>,
    id: Seq<char>,
    display_name: Seq<char>,
) -> Seq<RequesterModel> {
    let name = text::trimmed(display_name);
    match seqs::first_where(requesters, |r: RequesterModel| r.discord_user_id == id) {
        Some(i) => if name.len() > 0 {
            order::ordered(
                requesters.update(i, RequesterModel { display_name: name, ..requesters[i] }),
            )
        } else {
            order::ordered(requesters)
        },
        None => order::ordered(
            requesters.push(RequesterModel { discord_user_id: id, display_name: name }),
        ),
    }
}

/// The settings after the name of a requester was remembered. A text that names no user changes
/// nothing.
pub open spec fn with_requester(
    settings: BridgeSettingsModel,
    user: Seq<char>,
    display_name: Seq<char>,
) -> BridgeSettingsModel {
    match requesters::user_id_of(user) {
        Some(id) => BridgeSettingsModel {
            allowed_requesters: requesters_with(settings.allowed_requesters, id, display_name),
            ..settings
        },
        None => settings,
    }
}

/// The settings after a requester was forgotten. A text that names no user changes nothing.
pub open spec fn without_requester(
    settings: BridgeSettingsModel,
    user: Seq<char>,
) -> BridgeSettingsModel {
    match requesters::user_id_of(user) {
        Some(id) => BridgeSettingsModel {
            allowed_requesters: settings.allowed_requesters.filter(
                |r: RequesterModel| r.discord_user_id != id,
            ),
            ..settings
        },
        None => settings,
    }
}

/// Where a requester stands among others; their number if it is not among them.
pub fn position_of_requester(requesters: &Vec<AllowedDiscordRequester>, id: &str) -> (at: usize)
    ensures
        at <= requesters@.len(),
        at < requesters@.len() ==> requesters.deep_view()[at as int].discord_user_id == id@,
        seqs::first_where(
            requesters.deep_view(),
            |r: RequesterModel| r.discord_user_id == id@,
        ) == if at < requesters@.len() {
            Some(at as int)
        } else {
            None
        },
{
    let ghost pred = |r: RequesterModel| r.discord_user_id == id@;
    let ghost all = requesters.deep_view();
    let mut i: usize = 0;
    while i < requesters.len()
        invariant
            i <= requesters@.len(),
            all == requesters.deep_view(),
            pred == (|r: RequesterModel| r.discord_user_id == id@),
            forall|j: int| 0 <= j < i ==> !pred(#[trigger] all[j]),
        decreases requesters@.len() - i,
    {
        assert(all[i as int] == requesters@[i as int].deep_view());
        if text::same_text(requesters[i].discord_user_id.as_str(), id) {
            proof {
                seqs::first_is_found(all, pred, i as int);
            }
            return i;
        }
        i = i + 1;
    }
    proof {
        seqs::first_is_found(all, pred, i as int);
    }
    i
}

/// Remembers the name of a requester.
pub fn remember_allowed_requester(
    settings: &mut DiscordBridgeSettings,
    user_id: &str,
    display_name: &str,
)
    ensures
        final(settings).deep_view() == with_requester(
            old(settings).deep_view(),
            user_id@,
            display_name@,
        ),
{
    let id = match requesters::normalize_discord_user_id(user_id) {
        Some(id) => id,
        None => {
            return ;
        },
    };
    let name = text::trim(display_name);
    let mut list: Vec<AllowedDiscordRequester> = Vec::new();
    std::mem::swap(&mut list, &mut settings.allowed_requesters);
    let ghost before = list.deep_view();
    let at: usize = position_of_requester(&list, id.as_str());
    if at < list.len() {
        if !name.is_empty() {
            let ghost known = before[at as int];
            let known_id = list[at].discord_user_id.clone();
            list.set(
                at,
                AllowedDiscordRequester {
                    discord_user_id: known_id,
                    display_name: name.to_owned(),
                },
            );
            assert(list.deep_view() == before.update(
                at as int,
                RequesterModel { display_name: name@, ..known },
            ));
        }
    } else {
        let ghost added = RequesterModel { discord_user_id: id@, display_name: name@ };
        list.push(
            AllowedDiscordRequester { discord_user_id: id, display_name: name.to_owned() },
        );
        assert(list.deep_view() == before.push(added));
    }
    settings.allowed_requesters = put_in_order(list);
}

/// Forgets a requester.
pub fn forget_allowed_requester(settings: &mut DiscordBridgeSettings, user_id: &str)
    ensures
        final(settings).deep_view() == without_requester(old(settings).deep_view(), user_id@),
{
    let id = match requesters::normalize_discord_user_id(user_id) {
        Some(id) => id,
        None => {
            return ;
        },
    };
    let mut list: Vec<AllowedDiscordRequester> = Vec::new();
    std::mem::swap(&mut list, &mut settings.allowed_requesters);
    let ghost models = list.deep_view();
    let ghost all = list@;
    let ghost pred = |r: RequesterModel| r.discord_user_id != id@;
    let mut kept: Vec<AllowedDiscordRequester> = Vec::new();
    proof {
        reveal(Seq::filter);
        assert(kept.deep_view() =~= models.take(0).filter(pred));
    }
    for requester in iter: list
        invariant
            iter.seq() == all,
            models.len() == all.len(),
            forall|i: int| 0 <= i < all.len() ==> models[i] == (#[trigger] all[i]).deep_view(),
            pred == (|r: RequesterModel| r.discord_user_id != id@),
            kept.deep_view() == models.take(iter.index()).filter(pred),
    {
        let ghost before = kept.deep_view();
        let ghost model = requester.deep_view();
        let ghost done = iter.index();
        proof {
            models.take(done).lemma_filter_push(model, pred);
            assert(models.take(done).push(model) == models.take(done + 1));
        }
        if !text::same_text(requester.discord_user_id.as_str(), id.as_str()) {
            kept.push(requester);
            assert(kept.deep_view() == before.push(model));
        }
    }
    assert(models.take(all.len() as int) == models);
    settings.allowed_requesters = kept;
}

/// A requester whose name was remembered is known under that name.
pub proof fn remembered_name_is_known(
    requesters: Seq<RequesterModel>,
    id: Seq<char>,
    display_name: Seq<char>,
)
    requires
        !text::is_blank(display_name),
    ensures
        requesters_with(requesters, id, display_name).contains(
            RequesterModel { discord_user_id: id, display_name: text::trimmed(display_name) },
        ),
{
    let name = text::trimmed(display_name);
    let known = RequesterModel { discord_user_id: id, display_name: name };
    let pred = |r: RequesterModel| r.discord_user_id == id;
    match seqs::first_where(requesters, pred) {
        Some(i) => {
            assert(seqs::is_first(requesters, pred, i));
            let updated = requesters.update(i, known);
            order::order_keeps_members(updated);
            assert(updated[i] == known);
            assert(updated.contains(known));
        },
        None => {
            let longer = requesters.push(known);
            order::order_keeps_members(longer);
            assert(longer[requesters.len() as int] == known);
            assert(longer.contains(known));
        },
    }
}

/// A requester who was forgotten is not known any more.
pub proof fn forgotten_requester_is_unknown(
    settings: BridgeSettingsModel,
    user: Seq<char>,
    id: Seq<char>,
    i: int,
)
    requires
        requesters::user_id_of(user) == Some(id),
        0 <= i < without_requester(settings, user).allowed_requesters.len(),
    ensures
        without_requester(settings, user).allowed_requesters[i].discord_user_id != id,
{
    let k = seqs::filtered_was_there(
        settings.allowed_requesters,
        |r: RequesterModel| r.discord_user_id != id,
        i,
    );
}

/// Remembering the name of a requester changes no other requester, and forgets nobody: who was
/// known stays known. Where no name is given, the one that was known is kept.
pub proof fn remembering_changes_nobody_else(
    requesters: Seq<RequesterModel>,
    id: Seq<char>,
    display_name: Seq<char>,
    x: RequesterModel,
)
    ensures
        ({
            let after = requesters_with(requesters, id, display_name);
            &&& x.discord_user_id != id ==> (after.contains(x) <==> requesters.contains(x))
            &&& text::is_blank(display_name) && requesters.contains(x) ==> after.contains(x)
            &&& exists|i: int| 0 <= i < after.len() && (#[trigger] after[i]).discord_user_id == id
            &&& requesters.len() <= after.len() <= requesters.len() + 1
            &&& requesters.contains(x) && x.discord_user_id == id ==> after.len()
                == requesters.len()
        }),
{
    let name = text::trimmed(display_name);
    let pred = |r: RequesterModel| r.discord_user_id == id;
    match seqs::first_where(requesters, pred) {
        Some(at) => {
            assert(seqs::is_first(requesters, pred, at));
            let next = if name.len() > 0 {
                requesters.update(at, RequesterModel { display_name: name, ..requesters[at] })
            } else {
                requesters
            };
            order::order_keeps_members(next);
            order::ordered_is_stable_order(next);
            let after = order::ordered(next);
            if requesters.contains(x) && x.discord_user_id != id {
                let k = choose|k: int| 0 <= k < requesters.len() && requesters[k] == x;
                assert(next[k] == x);
            }
            if next.contains(x) && x.discord_user_id != id {
                let k = choose|k: int| 0 <= k < next.len() && next[k] == x;
                assert(requesters[k] == x);
            }
            assert(next.contains(next[at]));
            assert(after.contains(next[at]));
            let i = choose|i: int| 0 <= i < after.len() && after[i] == next[at];
            assert(after[i].discord_user_id == id);
        },
        None => {
            let added = RequesterModel { discord_user_id: id, display_name: name };
            let next = requesters.push(added);
            order::order_keeps_members(next);
            let after = order::ordered(next);
            if requesters.contains(x) {
                let k = choose|k: int| 0 <= k < requesters.len() && requesters[k] == x;
                assert(next[k] == x);
                if x.discord_user_id == id {
                    seqs::first_is_there(requesters, pred, k);
                }
            }
            if next.contains(x) && x.discord_user_id != id {
                let k = choose|k: int| 0 <= k < next.len() && next[k] == x;
                assert(requesters[k] == x);
            }
            assert(next[requesters.len() as int] == added);
            assert(next.contains(added));
            assert(after.contains(added));
            let i = choose|i: int| 0 <= i < after.len() && after[i] == added;
            assert(after[i].discord_user_id == id);
        },
    }
}

/// Forgetting a requester forgets nobody else.
pub proof fn forgetting_keeps_the_others(
    settings: BridgeSettingsModel,
    user: Seq<char>,
    id: Seq<char>,
    x: RequesterModel,
)
    requires
        requesters::user_id_of(user) == Some(id),
    ensures
        without_requester(settings, user).allowed_requesters.contains(x) <==> x.discord_user_id
            != id && settings.allowed_requesters.contains(x),
{
    let pred = |r: RequesterModel| r.discord_user_id != id;
    let before = settings.allowed_requesters;
    let after = without_requester(settings, user).allowed_requesters;
    if after.contains(x) {
        let i = choose|i: int| 0 <= i < after.len() && after[i] == x;
        let k = seqs::filtered_was_there(before, pred, i);
        assert(before[k] == x);
    }
    if x.discord_user_id != id && before.contains(x) {
        let k = choose|k: int| 0 <= k < before.len() && before[k] == x;
        let i = seqs::passing_is_kept(before, pred, k);
        assert(after[i] == x);
    }
}

/// Credentials that are there are kept, and those that are missing are taken from what was made
/// up; nothing else in the settings changes.
pub proof fn only_missing_credentials_are_filled_in(
    settings: BridgeSettingsModel,
    new_id: Seq<char>,
    new_token: Seq<char>,
)
    ensures
        ({
            let after = with_credentials(settings, new_id, new_token);
            &&& text::trimmed(settings.companion_id).len() > 0 ==> after.companion_id
                == settings.companion_id
            &&& text::trimmed(settings.companion_id).len() == 0 ==> after.companion_id == new_id
            &&& text::trimmed(settings.api_token).len() > 0 ==> after.api_token
                == settings.api_token
            &&& text::trimmed(settings.api_token).len() == 0 ==> after.api_token == new_token
            &&& after.bridge_url == settings.bridge_url
            &&& after.pairing_code == settings.pairing_code
            &&& after.pairing_expires_at == settings.pairing_expires_at
            &&& after.paired_discord_user_id == settings.paired_discord_user_id
            &&& after.paired_discord_user_label == settings.paired_discord_user_label
            &&& after.allowed_requester_ids == settings.allowed_requester_ids
            &&& after.allowed_requesters == settings.allowed_requesters
            &&& after.poll_enabled == settings.poll_enabled
            &&& lacks_credentials(settings) <==> text::trimmed(settings.companion_id).len() == 0
                || text::trimmed(settings.api_token).len() == 0
        }),
{
}

/// The bridge is asked where the settings say it is, as who they say the companion is: with all
/// three given, there is a configuration that has them without white space around them and
/// without slashes behind the address. Without an address that is what is missing; else, without
/// an id or a token, the credentials are.
pub proof fn bridge_is_asked_as_the_settings_say(
    settings: BridgeSettingsModel,
    host: Seq<char>,
    slashes: nat,
)
    requires
        text::trimmed(settings.bridge_url) == host + Seq::new(slashes, |i: int| '/'),
        host.len() > 0 ==> host.last() != '/',
    ensures
        ({
            let id = text::trimmed(settings.companion_id);
            let token = text::trimmed(settings.api_token);
            &&& host.len() == 0 ==> settings.client_config() == Err::<ClientConfigModel, _>(
                BridgeErrorModel::MissingBridgeUrl,
            )
            &&& host.len() > 0 && (id.len() == 0 || token.len() == 0) ==> settings.client_config()
                == Err::<ClientConfigModel, _>(BridgeErrorModel::MissingCredentials)
            &&& host.len() > 0 && id.len() > 0 && token.len() > 0 ==> settings.client_config()
                == Ok::<_, BridgeErrorModel>(
                ClientConfigModel { bridge_url: host, companion_id: id, api_token: token },
            )
            &&& settings.can_poll() <==> host.len() + slashes > 0 && id.len() > 0 && token.len() > 0
        }),
{
    lemma_slashes_go(host, slashes);
}

proof fn lemma_slashes_go(host: Seq<char>, slashes: nat)
    requires
        host.len() > 0 ==> host.last() != '/',
    ensures
        text::without_trailing(host + Seq::new(slashes, |i: int| '/'), '/') == host,
    decreases slashes,
{
    let whole = host + Seq::new(slashes, |i: int| '/');
    if slashes > 0 {
        lemma_slashes_go(host, (slashes - 1) as nat);
        assert(whole.drop_last() =~= host + Seq::new((slashes - 1) as nat, |i: int| '/'));
    } else {
        assert(whole =~= host);
    }
}

/// Each message to the bridge goes to its own path below the address of the bridge. All but the
/// registration, which makes the token known, are signed with the token.
pub proof fn messages_go_where_they_belong(
    config: ClientConfigModel,
    code: Seq<char>,
    id: u64,
    reason: Option<Seq<char>>,
)
    ensures
        registration_message(config, code).url == config.bridge_url + "/bridge/pairings"@,
        registration_message(config, code).bearer_token is None,
        registration_message(config, code).body == (BridgeBodyModel::Registration {
            companion_id: config.companion_id,
            api_token: config.api_token,
            pairing_code: code,
        }),
        poll_message(config).url == config.bridge_url + "/bridge/requests"@,
        poll_message(config).bearer_token == Some(config.api_token),
        poll_message(config).body is Nothing,
        request_report_message(config, id, RequestStatus::Accepted, reason).body == (
        BridgeBodyModel::RequestStatus { status: "accepted"@, reason }),
        request_report_message(config, id, RequestStatus::Rejected, reason).body == (
        BridgeBodyModel::RequestStatus { status: "rejected"@, reason }),
        invite_report_message(config, id, InviteStatus::Allowed).body == (
        BridgeBodyModel::InviteStatus { status: "allowed"@ }),
        invite_report_message(config, id, InviteStatus::Rejected).body == (
        BridgeBodyModel::InviteStatus { status: "rejected"@ }),
        invite_report_message(config, id, InviteStatus::Allowed).url == config.bridge_url
            + "/bridge/invites/"@ + text::decimal(id as nat) + "/status"@,
        invite_report_message(config, id, InviteStatus::Allowed).bearer_token == Some(
            config.api_token,
        ),
{
}

/// A pairing code has nine characters: a dash in the middle of capital hexadecimal digits.
/// Different numbers have different codes.
pub proof fn pairing_code_is_the_number(a: u32, b: u32, i: int)
    ensures
        pairing_code_text(a).len() == 9,
        pairing_code_text(a)[4] == '-',
        0 <= i < 9 && i != 4 ==> {
            let c = pairing_code_text(a)[i];
            '0' <= c <= '9' || 'A' <= c <= 'F'
        },
        pairing_code_text(a) == pairing_code_text(b) ==> a == b,
{
    let p = pairing_code_text(a);
    let q = pairing_code_text(b);
    assert forall|d: nat| d < 16 implies {
        let c = #[trigger] text::hex_char(d, true);
        '0' <= c <= '9' || 'A' <= c <= 'F'
    } by {}
    assert(a / 0x1000_0000 < 16);
    if p == q {
        assert(p[0] == q[0] && p[1] == q[1] && p[2] == q[2] && p[3] == q[3] && p[5] == q[5] && p[6]
            == q[6] && p[7] == q[7] && p[8] == q[8]);
        lemma_hex_digits_differ((a / 0x1000_0000) as nat, (b / 0x1000_0000) as nat);
        lemma_hex_digits_differ((a / 0x100_0000 % 16) as nat, (b / 0x100_0000 % 16) as nat);
        lemma_hex_digits_differ((a / 0x10_0000 % 16) as nat, (b / 0x10_0000 % 16) as nat);
        lemma_hex_digits_differ((a / 0x1_0000 % 16) as nat, (b / 0x1_0000 % 16) as nat);
        lemma_hex_digits_differ((a / 0x1000 % 16) as nat, (b / 0x1000 % 16) as nat);
        lemma_hex_digits_differ((a / 0x100 % 16) as nat, (b / 0x100 % 16) as nat);
        lemma_hex_digits_differ((a / 0x10 % 16) as nat, (b / 0x10 % 16) as nat);
        lemma_hex_digits_differ((a % 16) as nat, (b % 16) as nat);
        assert(a == b) by (bit_vector)
            requires
                a / 0x1000_0000 == b / 0x1000_0000,
                a / 0x100_0000 % 16 == b / 0x100_0000 % 16,
                a / 0x10_0000 % 16 == b / 0x10_0000 % 16,
                a / 0x1_0000 % 16 == b / 0x1_0000 % 16,
                a / 0x1000 % 16 == b / 0x1000 % 16,
                a / 0x100 % 16 == b / 0x100 % 16,
                a / 0x10 % 16 == b / 0x10 % 16,
                a % 16 == b % 16,
        ;
    }
}

proof fn lemma_hex_digits_differ(d: nat, e: nat)
    requires
        d < 16,
        e < 16,
        text::hex_char(d, true) == text::hex_char(e, true),
    ensures
        d == e,
{
}

/// The requesters whose names are remembered are kept in the order of their numbers.
pub proof fn remembered_names_are_in_order(
    requesters: Seq<RequesterModel>,
    id: Seq<char>,
    display_name: Seq<char>,
    i: int,
    j: int,
)
    requires
        0 <= i < j < requesters_with(requesters, id, display_name).len(),
    ensures
        ({
            let after = requesters_with(requesters, id, display_name);
            text::text_before(after[i].discord_user_id, after[j].discord_user_id)
                || after[i].discord_user_id == after[j].discord_user_id
        }),
{
    let name = text::trimmed(display_name);
    let after = requesters_with(requesters, id, display_name);
    match seqs::first_where(requesters, |r: RequesterModel| r.discord_user_id == id) {
        Some(at) => {
            if name.len() > 0 {
                order::ordered_is_stable_order(
                    requesters.update(at, RequesterModel { display_name: name, ..requesters[at] }),
                );
            } else {
                order::ordered_is_stable_order(requesters);
            }
        },
        None => {
            order::ordered_is_stable_order(
                requesters.push(RequesterModel { discord_user_id: id, display_name: name }),
            );
        },
    }
    assert(!after[j].precedes(after[i]));
    text::text_order_is_total(after[i].discord_user_id, after[j].discord_user_id);
}

} // verus!
