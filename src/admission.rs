//! Admission of a connection attempt: the origin guard, the token, its
//! expiry, and the room that the claims name.
use crate::registry::RoomRegistry;
use crate::token::{extract_token_from_protocol, protocol_token};
use vstd::prelude::*;

verus! {

/// Seconds by which a token may be past its expiry and still be accepted,
/// to absorb clock skew between issuer and gateway.
pub const TOKEN_LEEWAY: usize = 60;

/// Claims of a verified token.
pub struct TokenClaims {
    /// Subject, usually the user name.
    pub sub: String,
    /// Expiry, in seconds since the epoch.
    pub exp: usize,
    /// Room to join instead of the subject's own.
    pub room: Option<String>,
}

/// Why a connection attempt was refused before the upgrade; every one of
/// them is answered with the same forbidden status.
#[derive(PartialEq, Eq, Structural, Clone, Copy, Debug)]
pub enum Rejection {
    OriginNotAllowed,
    MissingToken,
    InvalidToken,
}

/// The room that `c` places its holder in: the `room` claim, else `"user:" + sub`.
pub open spec fn room_of(c: TokenClaims) -> Seq<char> {
    match c.room {
        Some(r) => r@,
        None => "user:"@ + c.sub@,
    }
}

/// Whether `o` may connect given the allow-list `list`: an empty list
/// admits everybody, otherwise `o` must be on it.
pub open spec fn origin_allowed(list: Seq<String>, o: Seq<char>) -> bool {
    list.len() == 0 || exists|i: int| 0 <= i < list.len() && list[i]@ == o
}

/// The outcome of the checks made before the token is verified: an origin
/// header that is present must be allowed, and the protocol header must
/// carry a token.
pub open spec fn admission_verdict(list: Seq<String>, origin: Option<Seq<char>>, header: Seq<char>) -> Result<
    Seq<char>,
    Rejection,
> {
    if origin is Some && !origin_allowed(list, origin->0) {
        Err(Rejection::OriginNotAllowed)
    } else if protocol_token(header).len() == 0 {
        Err(Rejection::MissingToken)
    } else {
        Ok(protocol_token(header))
    }
}

/// The outcome of token verification at time `now`: a token whose signature
/// did not verify is refused, and so is one that expired more than the
/// leeway ago.
pub open spec fn claims_verdict(decoded: Option<TokenClaims>, now: u64) -> Result<TokenClaims, Rejection> {
    match decoded {
        None => Err(Rejection::InvalidToken),
        Some(c) => if now <= c.exp + TOKEN_LEEWAY {
            Ok(c)
        } else {
            Err(Rejection::InvalidToken)
        },
    }
}

/// Applies the expiry rule to the claims of a token whose signature was
/// checked (`None` when decoding or the signature failed).
pub fn check_claims(decoded: Option<TokenClaims>, now: u64) -> (r: Result<TokenClaims, Rejection>)
    ensures
        r == claims_verdict(decoded, now),
{
    match decoded {
        None => Err(Rejection::InvalidToken),
        Some(c) => {
            if (now as u128) <= (c.exp as u128) + (TOKEN_LEEWAY as u128) {
                Ok(c)
            } else {
                Err(Rejection::InvalidToken)
            }
        },
    }
}

/// The room that `claims` places its holder in.
pub fn room_for(claims: &TokenClaims) -> (r: String)
    ensures
        r@ == room_of(*claims),
{
    match &claims.room {
        Some(room) => room.clone(),
        None => {
            let mut id = String::new();
            id.append("user:");
            id.append(claims.sub.as_str());
            id
        },
    }
}

/// Configuration and rooms of one gateway.
pub struct AppState {
    /// Live rooms and their channels.
    pub rooms: RoomRegistry,
    /// Shared secret that tokens are signed with.
    pub jwt_secret: String,
    /// Origins allowed to connect; empty admits every origin.
    pub allowed_origins: Vec<String>,
}

impl AppState {
    /// A gateway with no rooms yet.
    pub fn new(jwt_secret: String, allowed_origins: Vec<String>) -> (r: Self)
        ensures
            r.rooms.wf(),
            r.rooms@ == Map::<Seq<char>, crate::registry::RoomView>::empty(),
            r.jwt_secret == jwt_secret,
            r.allowed_origins == allowed_origins,
    {
        AppState { rooms: RoomRegistry::new(), jwt_secret, allowed_origins }
    }

    /// The local development configuration: a weak, well-known secret and
    /// the two local front-end origins. Never for production.
    pub fn new_dev() -> (r: Self)
        ensures
            r.rooms.wf(),
            r.rooms@ == Map::<Seq<char>, crate::registry::RoomView>::empty(),
            r.jwt_secret@ == "supersecret"@,
            r.allowed_origins@.len() == 2,
            r.allowed_origins@[0]@ == "http://localhost:3000"@,
            r.allowed_origins@[1]@ == "http://127.0.0.1:3000"@,
    {
        let mut origins: Vec<String> = Vec::new();
        origins.push("http://localhost:3000".to_owned());
        origins.push("http://127.0.0.1:3000".to_owned());
        Self::new("supersecret".to_owned(), origins)
    }

    /// Whether a connection declaring `origin` may proceed.
    pub fn is_origin_allowed(&self, origin: &str) -> (r: bool)
        ensures
            r == origin_allowed(self.allowed_origins@, origin@),
    {
        if self.allowed_origins.len() == 0 {
            return true;
        }
        let o = origin.to_owned();
        let mut i: usize = 0;
        while i < self.allowed_origins.len()
            invariant
                o@ == origin@,
                i <= self.allowed_origins@.len(),
                forall|k: int| 0 <= k < i ==> self.allowed_origins@[k]@ != origin@,
            decreases self.allowed_origins@.len() - i,
        {
            if self.allowed_origins[i] == o {
                return true;
            }
            i = i + 1;
        }
        false
    }

    /// The checks made before the token is verified, in order: the origin
    /// header when present, then the token carried by the protocol header.
    pub fn admission_token(&self, origin: Option<&str>, protocol_header: &str) -> (r: Result<
        String,
        Rejection,
    >)
        ensures
            match (r, admission_verdict(
                self.allowed_origins@,
                match origin {
                    Some(o) => Some(o@),
                    None => None,
                },
                protocol_header@,
            )) {
                (Ok(t), Ok(v)) => t@ == v,
                (Err(e), Err(f)) => e == f,
                _ => false,
            },
    {
        match origin {
            Some(o) => {
                if !self.is_origin_allowed(o) {
                    return Err(Rejection::OriginNotAllowed);
                }
            },
            None => {},
        }
        let token = extract_token_from_protocol(protocol_header);
        if token.as_str().unicode_len() == 0 {
            Err(Rejection::MissingToken)
        } else {
            Ok(token)
        }
    }
}

/// A token whose expiry lies at most the leeway in the past is admitted;
/// one that expired longer ago than that is refused.
pub proof fn law_expiry_leeway(c: TokenClaims, now: u64)
    ensures
        now <= c.exp + TOKEN_LEEWAY ==> claims_verdict(Some(c), now) == Ok::<TokenClaims, Rejection>(c),
        now > c.exp + TOKEN_LEEWAY ==> claims_verdict(Some(c), now) == Err::<TokenClaims, Rejection>(
            Rejection::InvalidToken,
        ),
{
}

/// With a non-empty allow-list, an origin that is not on it is refused
/// whatever the token; with an empty one, no origin, nor its absence, is
/// ever the reason for a refusal.
pub proof fn law_origin_guard(list: Seq<String>, o: Seq<char>, header: Seq<char>)
    ensures
        list.len() > 0 && (forall|i: int| 0 <= i < list.len() ==> list[i]@ != o)
            ==> admission_verdict(list, Some(o), header) == Err::<Seq<char>, Rejection>(
            Rejection::OriginNotAllowed,
        ),
        list.len() == 0 ==> admission_verdict(list, Some(o), header) == admission_verdict(
            list,
            None,
            header,
        ),
        admission_verdict(list, None, header) != Err::<Seq<char>, Rejection>(
            Rejection::OriginNotAllowed,
        ),
{
}

} // verus!
