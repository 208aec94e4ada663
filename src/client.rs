//! The client's own logic: endpoint addresses, the session cookie, where the
//! seed comes from, reading response bodies, and the steps of fetching and
//! decrypting one part's input.
use vstd::prelude::*;
use crate::crypto::{decrypt_input, decrypt_result};
use crate::error::ClientError;
use crate::event::{event_number, Event};
use crate::json::{json_quoted_of, json_str_at, json_u64_at, quote_json, str_field, u64_field};
use crate::quest::Quest;
use crate::text::{dec, dec_string, parse_u32, parse_u32_spec, trim, trim_of, chars_of};
use vstd::utf8::encode_utf8;

verus! {

/// Whether an HTTP status is a success (2xx).
pub open spec fn is_success(status: u16) -> bool {
    200 <= status <= 299
}

/// The message for a response whose status is not a success.
pub open spec fn status_message(status: u16) -> Seq<char> {
    "HTTP status "@ + dec(status as nat)
}

/// The message for a part that the asset response does not hold.
pub open spec fn part_missing_message(part: u8) -> Seq<char> {
    "Part "@ + dec(part as nat) + " not found in response"@
}

/// The message for a part whose key the quest response does not hold.
pub open spec fn key_missing_message(part: u8) -> Seq<char> {
    "Key for part "@ + dec(part as nat) + " not available (possibly not solved yet)"@
}

/// A response's body where its status is a success, else an `HttpError`.
pub fn check_status(status: u16, body: String) -> (r: Result<String, ClientError>)
    ensures
        is_success(status) ==> r == Ok::<String, ClientError>(body),
        !is_success(status) ==> r is Err && r->Err_0 is HttpError && r->Err_0.message()
            == status_message(status),
{
    if 200 <= status && status <= 299 {
        Ok(body)
    } else {
        let mut msg = String::from_str("HTTP status ");
        let code = dec_string(status as u64);
        msg.append(code.as_str());
        Err(ClientError::HttpError(msg))
    }
}

/// The JSON key of a part's ciphertext in the asset response.
pub open spec fn part_field(part: u8) -> Seq<char> {
    dec(part as nat)
}

/// The JSON key of a part's decryption key in the quest response.
pub open spec fn key_field(part: u8) -> Seq<char> {
    "key"@ + dec(part as nat)
}

/// The hex ciphertext of a part in the asset response, if the part is one of
/// the three and the body holds it.
pub open spec fn part_from_body_spec(body: Seq<char>, part: u8) -> Option<Seq<char>> {
    if 1 <= part <= 3 {
        json_str_at(body, part_field(part))
    } else {
        None
    }
}

/// The decryption key of a part in the quest response, if the part is one of
/// the three and the body holds it.
pub open spec fn key_from_body_spec(body: Seq<char>, part: u8) -> Option<Seq<char>> {
    if 1 <= part <= 3 {
        json_str_at(body, key_field(part))
    } else {
        None
    }
}

/// The seed in the user-info response, if it holds one that fits 32 bits.
pub open spec fn seed_from_body_spec(body: Seq<char>) -> Option<u32> {
    match json_u64_at(body, "seed"@) {
        Some(v) => if v <= u32::MAX { Some(v as u32) } else { None },
        None => None,
    }
}

/// Reads the hex ciphertext of `part` from the asset response body.
pub fn encrypted_part_from_body(body: &str, part: u8) -> (r: Result<String, ClientError>)
    ensures
        r is Ok <==> part_from_body_spec(body@, part) is Some,
        r is Ok ==> r->Ok_0@ == part_from_body_spec(body@, part)->0,
        r is Err ==> r->Err_0 is HttpError && r->Err_0.message() == part_missing_message(part),
{
    let found = if 1 <= part && part <= 3 {
        let key = dec_string(part as u64);
        str_field(body, key.as_str())
    } else {
        None
    };
    match found {
        Some(t) => Ok(t),
        None => {
            let mut msg = String::from_str("Part ");
            let p = dec_string(part as u64);
            msg.append(p.as_str());
            msg.append(" not found in response");
            Err(ClientError::HttpError(msg))
        },
    }
}

/// Reads the decryption key of `part` from the quest response body.
pub fn key_from_body(body: &str, part: u8) -> (r: Result<String, ClientError>)
    ensures
        r is Ok <==> key_from_body_spec(body@, part) is Some,
        r is Ok ==> r->Ok_0@ == key_from_body_spec(body@, part)->0,
        r is Err ==> r->Err_0 is HttpError && r->Err_0.message() == key_missing_message(part),
{
    let p = dec_string(part as u64);
    let found = if 1 <= part && part <= 3 {
        let mut key = String::from_str("key");
        key.append(p.as_str());
        str_field(body, key.as_str())
    } else {
        None
    };
    match found {
        Some(t) => Ok(t),
        None => {
            let mut msg = String::from_str("Key for part ");
            msg.append(p.as_str());
            msg.append(" not available (possibly not solved yet)");
            Err(ClientError::HttpError(msg))
        },
    }
}

/// Reads the account's seed from the user-info response body.
pub fn seed_from_body(body: &str) -> (r: Result<u32, ClientError>)
    ensures
        r is Ok <==> seed_from_body_spec(body@) is Some,
        r is Ok ==> r->Ok_0 == seed_from_body_spec(body@)->0,
        r is Err ==> r->Err_0 is HttpError && r->Err_0.message() == "user response holds no valid seed"@,
{
    match u64_field(body, "seed") {
        Some(v) => {
            if v <= u32::MAX as u64 {
                return Ok(v as u32);
            }
        },
        None => {},
    }
    Err(ClientError::HttpError(String::from_str("user response holds no valid seed")))
}

/// The seed that an override value configures, if it is set, not blank, and
/// a 32-bit decimal once trimmed.
pub fn seed_from_override(value: Option<&str>) -> (r: Option<u32>)
    ensures
        value is None ==> r is None,
        value is Some ==> r == parse_u32_spec(trim_of(value->0@)),
        value is Some && trim_of(value->0@).len() == 0 ==> r is None,
{
    match value {
        Some(v) => {
            let t = trim(v);
            let cs = chars_of(t.as_str());
            assert(cs@.subrange(0, cs@.len() as int) =~= cs@);
            parse_u32(&cs, 0, cs.len())
        },
        None => None,
    }
}

/// A resolved client: the trimmed session token and the account's seed,
/// both fixed for the client's lifetime.
pub struct ClientConfig {
    session: String,
    seed: u32,
}

/// What the setup of a client needs next.
pub enum Setup {
    /// The seed must be fetched from the user-info endpoint with this session.
    NeedSeed(String),
    /// The client is ready; nothing is fetched.
    Ready(ClientConfig),
}

impl ClientConfig {
    pub closed spec fn session_view(&self) -> Seq<char> {
        self.session@
    }

    pub closed spec fn seed_view(&self) -> u32 {
        self.seed
    }

    /// A client for a session token (trimmed here) and a known seed.
    pub fn new(session: &str, seed: u32) -> (r: ClientConfig)
        ensures
            r.session_view() == trim_of(session@),
            r.seed_view() == seed,
    {
        ClientConfig { session: trim(session), seed }
    }

    /// Starts setting up a client. A set, non-blank override is the seed and
    /// nothing is fetched; one that is not a 32-bit decimal is refused. Only
    /// an absent or blank override leaves the seed to be fetched.
    pub fn begin(session: &str, override_value: Option<&str>) -> (r: Result<Setup, ClientError>)
        ensures
            override_value is None || trim_of(override_value->0@).len() == 0 ==> r is Ok
                && r->Ok_0 is NeedSeed && r->Ok_0->NeedSeed_0@ == trim_of(session@),
            override_value is Some && trim_of(override_value->0@).len() > 0 && parse_u32_spec(
                trim_of(override_value->0@),
            ) is Some ==> r is Ok && r->Ok_0 is Ready && r->Ok_0->Ready_0.seed_view()
                == parse_u32_spec(trim_of(override_value->0@))->0
                && r->Ok_0->Ready_0.session_view() == trim_of(session@),
            override_value is Some && trim_of(override_value->0@).len() > 0 && parse_u32_spec(
                trim_of(override_value->0@),
            ) is None ==> r is Err && r->Err_0 is InvalidSeed && r->Err_0.message()
                == "Invalid seed override: "@ + trim_of(override_value->0@),
    {
        match override_value {
            Some(v) => {
                let t = trim(v);
                if !t.as_str().is_empty() {
                    return match seed_from_override(Some(v)) {
                        Some(seed) => Ok(Setup::Ready(ClientConfig::new(session, seed))),
                        None => {
                            let mut msg = String::from_str("Invalid seed override: ");
                            msg.append(t.as_str());
                            Err(ClientError::InvalidSeed(msg))
                        },
                    };
                }
            },
            None => {},
        }
        Ok(Setup::NeedSeed(trim(session)))
    }

    /// Finishes setting up a client from the user-info response.
    pub fn from_seed_response(session: String, status: u16, body: &str) -> (r: Result<ClientConfig, ClientError>)
        ensures
            r is Ok <==> is_success(status) && seed_from_body_spec(body@) is Some,
            r is Ok ==> r->Ok_0.seed_view() == seed_from_body_spec(body@)->0
                && r->Ok_0.session_view() == session@,
            r is Err ==> r->Err_0 is HttpError,
            !is_success(status) ==> r is Err && r->Err_0.message() == status_message(status),
            is_success(status) && r is Err ==> r->Err_0.message()
                == "user response holds no valid seed"@,
    {
        match check_status(status, String::new()) {
            Ok(_) => {},
            Err(e) => return Err(e),
        }
        match seed_from_body(body) {
            Ok(seed) => Ok(ClientConfig { session, seed }),
            Err(e) => Err(e),
        }
    }

    pub fn seed(&self) -> (r: u32)
        ensures
            r == self.seed_view(),
    {
        self.seed
    }

    /// The `Cookie` header's value: `everybody-codes=<session>`.
    pub fn cookie(&self) -> (r: String)
        ensures
            r@ == "everybody-codes="@ + self.session_view(),
    {
        session_cookie(self.session.as_str())
    }

    /// The user-info endpoint.
    pub fn user_url(&self) -> (r: String)
        ensures
            r@ == "https://everybody.codes/api/user/me"@,
    {
        user_info_url()
    }

    /// The asset endpoint of a quest's encrypted inputs for this client's seed.
    pub fn asset_url(&self, event: Event, quest: Quest) -> (r: String)
        ensures
            r@ == "https://everybody.codes/assets/"@ + dec(event_number(event) as nat) + "/"@
                + dec(quest.number() as nat) + "/input/"@ + dec(self.seed_view() as nat)
                + ".json"@,
    {
        let mut u = String::from_str("https://everybody.codes/assets/");
        let e = dec_string(event.as_u32() as u64);
        u.append(e.as_str());
        u.append("/");
        let q = dec_string(quest.as_u8() as u64);
        u.append(q.as_str());
        u.append("/input/");
        let s = dec_string(self.seed as u64);
        u.append(s.as_str());
        u.append(".json");
        u
    }

    /// The quest-metadata endpoint, which carries the decryption keys.
    pub fn quest_url(&self, event: Event, quest: Quest) -> (r: String)
        ensures
            r@ == "https://everybody.codes/api/event/"@ + dec(event_number(event) as nat)
                + "/quest/"@ + dec(quest.number() as nat),
    {
        let mut u = String::from_str("https://everybody.codes/api/event/");
        let e = dec_string(event.as_u32() as u64);
        u.append(e.as_str());
        u.append("/quest/");
        let q = dec_string(quest.as_u8() as u64);
        u.append(q.as_str());
        u
    }

    /// The answer-submission endpoint of a part.
    pub fn answer_url(&self, event: Event, quest: Quest, part: u8) -> (r: String)
        ensures
            r@ == "https://everybody.codes/api/event/"@ + dec(event_number(event) as nat)
                + "/quest/"@ + dec(quest.number() as nat) + "/part/"@ + dec(part as nat)
                + "/answer"@,
    {
        let mut u = self.quest_url(event, quest);
        u.append("/part/");
        let p = dec_string(part as u64);
        u.append(p.as_str());
        u.append("/answer");
        u
    }
}

/// The `Cookie` header's value for a session token: `everybody-codes=<session>`.
pub fn session_cookie(session: &str) -> (r: String)
    ensures
        r@ == "everybody-codes="@ + session@,
{
    let mut c = String::from_str("everybody-codes=");
    c.append(session);
    c
}

/// The user-info endpoint, which tells the account's seed.
pub fn user_info_url() -> (r: String)
    ensures
        r@ == "https://everybody.codes/api/user/me"@,
{
    String::from_str("https://everybody.codes/api/user/me")
}

/// The JSON body of an answer submission: `{"answer":<answer as a JSON string>}`.
pub fn answer_body(answer: &str) -> (r: String)
    ensures
        r@ == "{\"answer\":"@ + json_quoted_of(answer@) + "}"@,
{
    let mut b = String::from_str("{\"answer\":");
    let q = quote_json(answer);
    b.append(q.as_str());
    b.append("}");
    b
}

/// The steps of fetching one part's input: the ciphertext first, then the
/// key, then decryption. The caller performs each request and hands back the
/// response; the first failure ends the run.
pub enum InputFetch {
    /// The asset response with the part's ciphertext is wanted.
    NeedPayload,
    /// The quest response with the part's key is wanted; the ciphertext is held.
    NeedKey(String),
    /// Done: the plaintext, or the first error met.
    Finished(Result<String, ClientError>),
}

impl InputFetch {
    pub fn start() -> (r: InputFetch)
        ensures
            r is NeedPayload,
    {
        InputFetch::NeedPayload
    }

    /// The next step after a response with `status` and `body` to the request
    /// that this step wants, for `part`. The first failure ends the run with
    /// that stage's own error: the payload's status or missing part, the key's
    /// status or missing key, or the decryption's.
    pub fn on_response(self, status: u16, body: &str, part: u8) -> (r: InputFetch)
        ensures
            !(self is Finished) && !is_success(status) ==> r is Finished && r->Finished_0 is Err
                && r->Finished_0->Err_0 is HttpError && r->Finished_0->Err_0.message()
                == status_message(status),
            self is NeedPayload && is_success(status) ==> match part_from_body_spec(body@, part) {
                Some(enc) => r is NeedKey && r->NeedKey_0@ == enc,
                None => r is Finished && r->Finished_0 is Err && r->Finished_0->Err_0 is HttpError
                    && r->Finished_0->Err_0.message() == part_missing_message(part),
            },
            self is NeedKey && is_success(status) ==> match key_from_body_spec(body@, part) {
                Some(k) => r is Finished && match decrypt_result(
                    encode_utf8(self->NeedKey_0@),
                    encode_utf8(k),
                ) {
                    Ok(p) => r->Finished_0 is Ok && r->Finished_0->Ok_0@ == p,
                    Err(m) => r->Finished_0 is Err && r->Finished_0->Err_0 is DecryptionError
                        && r->Finished_0->Err_0.message() == m,
                },
                None => r is Finished && r->Finished_0 is Err && r->Finished_0->Err_0 is HttpError
                    && r->Finished_0->Err_0.message() == key_missing_message(part),
            },
            self is Finished ==> r == self,
    {
        match self {
            InputFetch::NeedPayload => {
                match check_status(status, String::new()) {
                    Ok(_) => {},
                    Err(e) => return InputFetch::Finished(Err(e)),
                }
                match encrypted_part_from_body(body, part) {
                    Ok(enc) => InputFetch::NeedKey(enc),
                    Err(e) => InputFetch::Finished(Err(e)),
                }
            },
            InputFetch::NeedKey(enc) => {
                match check_status(status, String::new()) {
                    Ok(_) => {},
                    Err(e) => return InputFetch::Finished(Err(e)),
                }
                match key_from_body(body, part) {
                    Ok(k) => InputFetch::Finished(decrypt_input(enc.as_str(), k.as_str())),
                    Err(e) => InputFetch::Finished(Err(e)),
                }
            },
            InputFetch::Finished(res) => InputFetch::Finished(res),
        }
    }
}

} // verus!
