use vstd::prelude::*;
use crate::food::Food;
use crate::players::Player;
use crate::protocol::{cells_text, decimal, push_cells, push_int, COMMA, NEWLINE, SPACE};

verus! {

/// Where replays are written and how their files are named.
#[derive(Debug, Clone, PartialEq, Eq)]
pub struct ReplayConfig {
    /// Directory of the replay files.
    pub path: String,
    /// File name template; `{seed}` and `{time:...}` are filled in when a replay starts.
    pub format: String,
}

impl ReplayConfig {
    pub fn default_format() -> (r: String)
        ensures
            r@ == "{seed}-{time:%Y-%m-%dT%H-%M-%S}"@,
    {
        "{seed}-{time:%Y-%m-%dT%H-%M-%S}".to_owned()
    }

    pub fn default_path() -> (r: String)
        ensures
            r@ == "replays"@,
    {
        "replays".to_owned()
    }

    /// The default replay settings: `replays/` and a name made of seed and time.
    pub fn new_default() -> (r: ReplayConfig)
        ensures
            r.path@ == "replays"@,
            r.format@ == "{seed}-{time:%Y-%m-%dT%H-%M-%S}"@,
    {
        ReplayConfig { path: Self::default_path(), format: Self::default_format() }
    }
}

/// The replay setting as configured: a flag, or the fields of a mapping.
#[derive(Debug, Clone, PartialEq, Eq)]
pub enum ReplaySetting {
    Flag(bool),
    Fields { path: Option<String>, format: Option<String> },
    Other,
}

/// Why a replay setting was refused.
#[derive(Debug, Clone, Copy, PartialEq, Eq, Structural)]
pub enum ReplaySettingError {
    /// Neither a boolean nor a mapping.
    ExpectedBooleanOrMapping,
}

/// The replay settings, or `None` when no replay is recorded.
#[derive(Debug, Clone, PartialEq, Eq)]
pub struct OptionalReplayConfig(pub Option<ReplayConfig>);

impl OptionalReplayConfig {
    /// Reads the replay setting: `true` records with the defaults, `false` records
    /// nothing, a mapping records with its fields, each defaulted when absent;
    /// anything else is refused.
    pub fn from_setting(setting: &ReplaySetting) -> (r: Result<OptionalReplayConfig, ReplaySettingError>)
        ensures
            setting matches ReplaySetting::Flag(true) ==> r matches Ok(OptionalReplayConfig(Some(c)))
                && c.path@ == "replays"@ && c.format@ == "{seed}-{time:%Y-%m-%dT%H-%M-%S}"@,
            setting matches ReplaySetting::Flag(false) ==> r matches Ok(OptionalReplayConfig(None)),
            setting matches ReplaySetting::Fields { path, format } ==> r matches Ok(
                OptionalReplayConfig(Some(c)),
            ) && c.path@ == (match path {
                Some(p) => p@,
                None => "replays"@,
            }) && c.format@ == (match format {
                Some(f) => f@,
                None => "{seed}-{time:%Y-%m-%dT%H-%M-%S}"@,
            }),
            setting is Other ==> r matches Err(ReplaySettingError::ExpectedBooleanOrMapping),
    {
        match setting {
            ReplaySetting::Flag(true) => Ok(OptionalReplayConfig(Some(ReplayConfig::new_default()))),
            ReplaySetting::Flag(false) => Ok(OptionalReplayConfig(None)),
            ReplaySetting::Fields { path, format } => {
                let path = match path {
                    Some(p) => p.clone(),
                    None => ReplayConfig::default_path(),
                };
                let format = match format {
                    Some(f) => f.clone(),
                    None => ReplayConfig::default_format(),
                };
                Ok(OptionalReplayConfig(Some(ReplayConfig { path, format })))
            },
            ReplaySetting::Other => Err(ReplaySettingError::ExpectedBooleanOrMapping),
        }
    }

    pub fn is_some(&self) -> (r: bool)
        ensures
            r == self.0 is Some,
    {
        self.0.is_some()
    }

    pub fn is_none(&self) -> (r: bool)
        ensures
            r == self.0 is None,
    {
        self.0.is_none()
    }
}

/// `lifetime x y ` for each food.
pub open spec fn replay_foods(foods: Seq<Food>) -> Seq<u8>
    decreases foods.len(),
{
    if foods.len() == 0 {
        seq![]
    } else {
        let f = foods.last();
        replay_foods(foods.drop_last()) + decimal(f.lifetime as int) + seq![SPACE] + decimal(
            f.position.x as int,
        ) + seq![SPACE] + decimal(f.position.y as int) + seq![SPACE]
    }
}

/// `id x y` for the head, ` x y` for each body cell and a comma, for each live
/// snake among the first `m` players.
pub open spec fn replay_snakes(ps: Seq<Player>, m: int) -> Seq<u8>
    decreases m,
{
    if m <= 0 {
        seq![]
    } else {
        let prev = replay_snakes(ps, m - 1);
        match ps[m - 1].snake {
            Some(s) => prev + decimal(ps[m - 1].id as int) + cells_text(seq![s.head] + s.body@)
                + seq![COMMA],
            None => prev,
        }
    }
}

/// The two replay lines of a resolved turn: the food, then the snakes.
pub open spec fn replay_turn_spec(ps: Seq<Player>, foods: Seq<Food>) -> Seq<u8> {
    replay_foods(foods) + seq![NEWLINE] + replay_snakes(ps, ps.len() as int) + seq![NEWLINE]
}

/// The replay lines of a resolved turn; see `replay_turn_spec`.
pub fn replay_turn(players: &Vec<Player>, foods: &Vec<Food>) -> (r: Vec<u8>)
    ensures
        r@ == replay_turn_spec(players@, foods@),
{
    let mut out: Vec<u8> = Vec::new();
    let mut k: usize = 0;
    while k < foods.len()
        invariant
            k <= foods@.len(),
            out@ == replay_foods(foods@.take(k as int)),
        decreases foods@.len() - k,
    {
        let f = foods[k];
        push_int(&mut out, f.lifetime as i64);
        out.push(SPACE);
        push_int(&mut out, f.position.x as i64);
        out.push(SPACE);
        push_int(&mut out, f.position.y as i64);
        out.push(SPACE);
        assert(foods@.take(k + 1).drop_last() =~= foods@.take(k as int));
        assert(foods@.take(k + 1).last() == f);
        assert(out@ =~= replay_foods(foods@.take(k + 1)));
        k = k + 1;
    }
    assert(foods@.take(foods@.len() as int) =~= foods@);
    out.push(NEWLINE);
    let ghost mid = out@;
    let mut i: usize = 0;
    while i < players.len()
        invariant
            i <= players@.len(),
            out@ == mid + replay_snakes(players@, i as int),
        decreases players@.len() - i,
    {
        match &players[i].snake {
            Some(s) => {
                let ghost before = out@;
                push_int(&mut out, players[i].id as i64);
                push_cells(&mut out, s.head, &s.body);
                out.push(COMMA);
                assert(out@ =~= mid + replay_snakes(players@, i + 1));
            },
            None => {},
        }
        i = i + 1;
    }
    out.push(NEWLINE);
    assert(out@ =~= replay_turn_spec(players@, foods@));
    out
}

} // verus!
