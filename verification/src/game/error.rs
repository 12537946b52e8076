//! The refusals of the engine and what they say.
use super::text::{decimal, decimal_text};
use vstd::prelude::*;
use vstd::string::*;

verus! {

/// The ways in which the engine refuses a request. Each variant carries the
/// coordinates or values that the refusal is about.
#[derive(Debug)]
pub enum WoopError {
    OutOfActions,
    ZordNotFound(i16, i16),
    NotEnoughPoints(u16, u16),
    CellOccupied(i16, i16),
    OutOfBounds(i16, i16),
    NotInRange(i16, i16, i16, i16),
    PlayerNotFound(String),
    WithinGracePeriod,
    NoZordNearby(i16, i16),
    NotOwned(i16, i16),
    AuthError,
    DonationLimit,
    DonationRange,
    OwnZord,
}

/// The mathematical content of a [`WoopError`].
pub enum Refusal {
    OutOfActions,
    ZordNotFound(int, int),
    NotEnoughPoints(nat, nat),
    CellOccupied(int, int),
    OutOfBounds(int, int),
    NotInRange(int, int, int, int),
    PlayerNotFound(Seq<char>),
    WithinGracePeriod,
    NoZordNearby(int, int),
    NotOwned(int, int),
    AuthError,
    DonationLimit,
    DonationRange,
    OwnZord,
}

impl View for WoopError {
    type V = Refusal;

    open spec fn view(&self) -> Refusal {
        match *self {
            WoopError::OutOfActions => Refusal::OutOfActions,
            WoopError::ZordNotFound(x, y) => Refusal::ZordNotFound(x as int, y as int),
            WoopError::NotEnoughPoints(current, required) => Refusal::NotEnoughPoints(
                current as nat,
                required as nat,
            ),
            WoopError::CellOccupied(x, y) => Refusal::CellOccupied(x as int, y as int),
            WoopError::OutOfBounds(x, y) => Refusal::OutOfBounds(x as int, y as int),
            WoopError::NotInRange(x_f, y_f, x_t, y_t) => Refusal::NotInRange(
                x_f as int,
                y_f as int,
                x_t as int,
                y_t as int,
            ),
            WoopError::PlayerNotFound(player) => Refusal::PlayerNotFound(player@),
            WoopError::WithinGracePeriod => Refusal::WithinGracePeriod,
            WoopError::NoZordNearby(x, y) => Refusal::NoZordNearby(x as int, y as int),
            WoopError::NotOwned(x, y) => Refusal::NotOwned(x as int, y as int),
            WoopError::AuthError => Refusal::AuthError,
            WoopError::DonationLimit => Refusal::DonationLimit,
            WoopError::DonationRange => Refusal::DonationRange,
            WoopError::OwnZord => Refusal::OwnZord,
        }
    }
}

impl Refusal {
    /// What a refusal says to the player who met it.
    pub open spec fn message(self) -> Seq<char> {
        match self {
            Refusal::OutOfActions => "Not enough actions"@,
            Refusal::ZordNotFound(x, y) => "Couldn't find zord at ("@ + decimal(x) + ", "@
                + decimal(y) + ")"@,
            Refusal::NotEnoughPoints(current, required) => "You have "@ + decimal(current as int)
                + " points but need "@ + decimal(required as int),
            Refusal::CellOccupied(x, y) => "The cell ("@ + decimal(x) + ", "@ + decimal(y)
                + ") is occupied"@,
            Refusal::OutOfBounds(x, y) => "("@ + decimal(x) + ", "@ + decimal(y)
                + ") is out of bounds"@,
            Refusal::NotInRange(x_f, y_f, x_t, y_t) => "("@ + decimal(x_t) + ", "@ + decimal(y_t)
                + ") is not in range of ("@ + decimal(x_f) + ", "@ + decimal(y_f) + ")"@,
            Refusal::PlayerNotFound(player) => "Couldn't find player named "@ + player,
            Refusal::WithinGracePeriod => "You tried shooting within the grace period"@,
            Refusal::NoZordNearby(x, y) => "There's no zord nearby ("@ + decimal(x) + ", "@
                + decimal(y) + ")"@,
            Refusal::NotOwned(x, y) => "You don't own the zord in ("@ + decimal(x) + ", "@
                + decimal(y) + ")"@,
            Refusal::AuthError => "Couldn't authenticate"@,
            Refusal::DonationLimit => "You can donate at most 10 points with each action"@,
            Refusal::DonationRange => "Out of range for a donation"@,
            Refusal::OwnZord => "You can't shoot your own zord"@,
        }
    }
}

/// `before`, the numerals of `x` and `y` parted by a comma, and `after`.
fn with_cell(before: &str, x: i16, y: i16, after: &str) -> (text: String)
    ensures
        text@ == before@ + decimal(x as int) + ", "@ + decimal(y as int) + after@,
{
    let mut text = before.to_owned();
    text.append(decimal_text(x as i32).as_str());
    text.append(", ");
    text.append(decimal_text(y as i32).as_str());
    text.append(after);
    text
}

/// Whether `result` is the failure that stands for `refusal`.
pub open spec fn refused(result: Result<(), WoopError>, refusal: Refusal) -> bool {
    result is Err && result->Err_0@ == refusal
}

impl WoopError {
    /// What the error says to the player who met it.
    pub fn message(&self) -> (text: String)
        ensures
            text@ == self@.message(),
    {
        match self {
            WoopError::OutOfActions => "Not enough actions".to_owned(),
            WoopError::ZordNotFound(x, y) => with_cell("Couldn't find zord at (", *x, *y, ")"),
            WoopError::NotEnoughPoints(current, required) => {
                let mut text = "You have ".to_owned();
                text.append(decimal_text(*current as i32).as_str());
                text.append(" points but need ");
                text.append(decimal_text(*required as i32).as_str());
                text
            },
            WoopError::CellOccupied(x, y) => with_cell("The cell (", *x, *y, ") is occupied"),
            WoopError::OutOfBounds(x, y) => with_cell("(", *x, *y, ") is out of bounds"),
            WoopError::NotInRange(x_f, y_f, x_t, y_t) => {
                let mut text = with_cell("(", *x_t, *y_t, ") is not in range of (");
                text.append(decimal_text(*x_f as i32).as_str());
                text.append(", ");
                text.append(decimal_text(*y_f as i32).as_str());
                text.append(")");
                text
            },
            WoopError::PlayerNotFound(player) => {
                let mut text = "Couldn't find player named ".to_owned();
                text.append(player.as_str());
                text
            },
            WoopError::WithinGracePeriod => "You tried shooting within the grace period".to_owned(),
            WoopError::NoZordNearby(x, y) => with_cell("There's no zord nearby (", *x, *y, ")"),
            WoopError::NotOwned(x, y) => with_cell("You don't own the zord in (", *x, *y, ")"),
            WoopError::AuthError => "Couldn't authenticate".to_owned(),
            WoopError::DonationLimit => {
                "You can donate at most 10 points with each action".to_owned()
            },
            WoopError::DonationRange => "Out of range for a donation".to_owned(),
            WoopError::OwnZord => "You can't shoot your own zord".to_owned(),
        }
    }

    pub fn out_of_actions() -> (result: Result<(), WoopError>)
        ensures
            refused(result, Refusal::OutOfActions),
    {
        Err(WoopError::OutOfActions)
    }

    pub fn zord_not_found(x: i16, y: i16) -> (result: Result<(), WoopError>)
        ensures
            refused(result, Refusal::ZordNotFound(x as int, y as int)),
    {
        Err(WoopError::ZordNotFound(x, y))
    }

    pub fn player_not_found(player: &str) -> (result: Result<(), WoopError>)
        ensures
            refused(result, Refusal::PlayerNotFound(player@)),
    {
        Err(WoopError::PlayerNotFound(player.to_owned()))
    }

    pub fn not_enough_points(current: u16, required: u16) -> (result: Result<(), WoopError>)
        ensures
            refused(result, Refusal::NotEnoughPoints(current as nat, required as nat)),
    {
        Err(WoopError::NotEnoughPoints(current, required))
    }

    pub fn cell_occupied(x: i16, y: i16) -> (result: Result<(), WoopError>)
        ensures
            refused(result, Refusal::CellOccupied(x as int, y as int)),
    {
        Err(WoopError::CellOccupied(x, y))
    }

    pub fn not_in_range(x_f: i16, y_f: i16, x_t: i16, y_t: i16) -> (result: Result<
        (),
        WoopError,
    >)
        ensures
            refused(result, Refusal::NotInRange(x_f as int, y_f as int, x_t as int, y_t as int)),
    {
        Err(WoopError::NotInRange(x_f, y_f, x_t, y_t))
    }

    pub fn out_of_bounds(x: i16, y: i16) -> (result: Result<(), WoopError>)
        ensures
            refused(result, Refusal::OutOfBounds(x as int, y as int)),
    {
        Err(WoopError::OutOfBounds(x, y))
    }

    pub fn within_grace_period() -> (result: Result<(), WoopError>)
        ensures
            refused(result, Refusal::WithinGracePeriod),
    {
        Err(WoopError::WithinGracePeriod)
    }

    pub fn no_zord_nearby(x: i16, y: i16) -> (result: Result<(), WoopError>)
        ensures
            refused(result, Refusal::NoZordNearby(x as int, y as int)),
    {
        Err(WoopError::NoZordNearby(x, y))
    }

    pub fn not_owned(x: i16, y: i16) -> (result: Result<(), WoopError>)
        ensures
            refused(result, Refusal::NotOwned(x as int, y as int)),
    {
        Err(WoopError::NotOwned(x, y))
    }

    pub fn donation_limit() -> (result: Result<(), WoopError>)
        ensures
            refused(result, Refusal::DonationLimit),
    {
        Err(WoopError::DonationLimit)
    }

    pub fn donation_out_of_range() -> (result: Result<(), WoopError>)
        ensures
            refused(result, Refusal::DonationRange),
    {
        Err(WoopError::DonationRange)
    }

    pub fn own_zord() -> (result: Result<(), WoopError>)
        ensures
            refused(result, Refusal::OwnZord),
    {
        Err(WoopError::OwnZord)
    }
}

} // verus!
