//! The parameter editor of a viewer: its rows, one per parameter that can be edited, what the
//! keys do there, and what an edit does to the parameter set.

use crate::noisemap::NoiseParameters;
use crate::scalar::Scalar;
use crate::scalar::SIGN_BIT;
use crate::world::WorldParameters;
use vstd::prelude::*;

verus! {

/// A row of the parameter editor.
#[derive(Debug, Copy, Clone, PartialEq, Eq, Structural)]
pub enum Row {
    SeaLevel,
    Octaves,
    Persistence,
    Lacunarity,
}

/// What a key asks of a row.
#[derive(Debug, Copy, Clone, PartialEq, Eq, Structural)]
pub enum EditType {
    Increase,
    Decrease,
    Press,
}

/// The keys that the viewer tells apart.
#[derive(Debug, Copy, Clone, PartialEq, Eq, Structural)]
pub enum Key {
    Return,
    Up,
    Down,
    Left,
    Right,
    Other,
}

/// What the viewer is to do on a key.
#[derive(Debug, Copy, Clone, PartialEq, Eq, Structural)]
pub enum KeyAction {
    /// Nothing beyond the move of the cursor, if the cursor moved.
    Stay,
    /// Replace the world by the world of a fresh seed, and draw it.
    NewWorld,
    /// Edit the row, generate the world anew, and draw it.
    Edit(Row, EditType),
}

/// The number of rows of the parameter editor.
pub const ROW_COUNT: usize = 4;

/// The size of the step of the sea level: the encoding of `0.1`.
pub const SEA_LEVEL_STEP: u64 = 0x3FB9_9999_9999_999A;

/// The size of the step of persistence and of lacunarity: the encoding of `0.05`.
pub const FACTOR_STEP: u64 = 0x3FA9_9999_9999_999A;

/// The row at a place of the editor, from the top.
pub open spec fn row_at(place: int) -> Row {
    if place == 0 {
        Row::SeaLevel
    } else if place == 1 {
        Row::Octaves
    } else if place == 2 {
        Row::Persistence
    } else {
        Row::Lacunarity
    }
}

/// Where the cursor stands after a key. Up steps towards the top and wraps from the top row to
/// the last one. Down steps towards the bottom; it may step off the last row to the place
/// behind it, and only from there it wraps to the top. No other key moves the cursor.
pub open spec fn cursor_after(cursor: usize, key: Key) -> int {
    match key {
        Key::Up => if cursor == 0 {
            ROW_COUNT - 1
        } else {
            cursor - 1
        },
        Key::Down => if cursor >= ROW_COUNT {
            0
        } else {
            cursor + 1
        },
        _ => cursor as int,
    }
}

/// What a key asks for. Return asks for a new world unless the key is repeating; Right and
/// Left ask for an edit of the row under the cursor.
pub open spec fn action_on(cursor: usize, key: Key, repeat: bool) -> KeyAction {
    match key {
        Key::Return => if repeat {
            KeyAction::Stay
        } else {
            KeyAction::NewWorld
        },
        Key::Right => KeyAction::Edit(row_at(cursor as int), EditType::Increase),
        Key::Left => KeyAction::Edit(row_at(cursor as int), EditType::Decrease),
        _ => KeyAction::Stay,
    }
}

/// The row at a place of the editor.
pub fn row_of(place: usize) -> (row: Row)
    requires
        place < ROW_COUNT,
    ensures
        row == row_at(place as int),
{
    if place == 0 {
        Row::SeaLevel
    } else if place == 1 {
        Row::Octaves
    } else if place == 2 {
        Row::Persistence
    } else {
        Row::Lacunarity
    }
}

/// The size of the step of a row with a real value.
pub open spec fn step_size(row: Row) -> u64 {
    if row == Row::SeaLevel {
        SEA_LEVEL_STEP
    } else {
        FACTOR_STEP
    }
}

/// The step by which an edit moves the value of a row: its size, with the sign of the
/// direction.
pub open spec fn signed_step(row: Row, edit: EditType) -> Scalar {
    if edit == EditType::Decrease {
        Scalar { bits: (step_size(row) + SIGN_BIT) as u64 }
    } else {
        Scalar { bits: step_size(row) }
    }
}

/// The value of a row with a real value.
pub open spec fn row_value(parameters: WorldParameters, row: Row) -> Scalar {
    match row {
        Row::SeaLevel => parameters.sea_level,
        Row::Persistence => parameters.elevation_parameters.persistence,
        _ => parameters.elevation_parameters.lacunarity,
    }
}

/// Whether an edit of the row calls for a sum: it moves a real value.
pub open spec fn edit_adds(row: Row, edit: EditType) -> bool {
    row != Row::Octaves && edit != EditType::Press
}

/// The parameter set after an edit of a row, where `sum` is the row's value with the signed
/// step added. An increase or a decrease changes the value of its row and nothing else: the
/// number of octaves by one, a real value to the sum. A press changes nothing.
pub open spec fn edited(
    parameters: WorldParameters,
    row: Row,
    edit: EditType,
    sum: Scalar,
) -> WorldParameters {
    let noise = parameters.elevation_parameters;
    if edit == EditType::Press {
        parameters
    } else {
        match row {
            Row::SeaLevel => WorldParameters { sea_level: sum, ..parameters },
            Row::Octaves => WorldParameters {
                elevation_parameters: NoiseParameters {
                    octaves: if edit == EditType::Increase {
                        (noise.octaves + 1) as usize
                    } else {
                        (noise.octaves - 1) as usize
                    },
                    ..noise
                },
                ..parameters
            },
            Row::Persistence => WorldParameters {
                elevation_parameters: NoiseParameters { persistence: sum, ..noise },
                ..parameters
            },
            Row::Lacunarity => WorldParameters {
                elevation_parameters: NoiseParameters { lacunarity: sum, ..noise },
                ..parameters
            },
        }
    }
}

/// `after` is the parameter set `before` with the row edited, the sum taken by `sum_of`.
pub open spec fn is_edit<A: Fn(Scalar, Scalar) -> Scalar>(
    sum_of: &A,
    before: WorldParameters,
    row: Row,
    edit: EditType,
    after: WorldParameters,
) -> bool {
    if edit_adds(row, edit) {
        exists|sum: Scalar|
            call_ensures(sum_of, (row_value(before, row), signed_step(row, edit)), sum)
                && after == #[trigger] edited(before, row, edit, sum)
    } else {
        after == edited(before, row, edit, Scalar::zero())
    }
}

/// Edits a row of the parameter set. The sum of a real value and its step is taken by `sum_of`;
/// the number of octaves must have room for its step.
pub fn edit_row<A: Fn(Scalar, Scalar) -> Scalar>(
    parameters: &mut WorldParameters,
    row: Row,
    edit: EditType,
    sum_of: &A,
)
    requires
        row == Row::Octaves && edit == EditType::Increase ==> old(
            parameters,
        ).elevation_parameters.octaves < usize::MAX,
        row == Row::Octaves && edit == EditType::Decrease ==> old(
            parameters,
        ).elevation_parameters.octaves > 0,
        edit_adds(row, edit) ==> call_requires(
            sum_of,
            (row_value(*old(parameters), row), signed_step(row, edit)),
        ),
    ensures
        is_edit(sum_of, *old(parameters), row, edit, *final(parameters)),
{
    let sign: u64 = match edit {
        EditType::Decrease => SIGN_BIT,
        _ => 0,
    };
    match edit {
        EditType::Press => {},
        _ => {
            match row {
                Row::SeaLevel => {
                    let step = Scalar::from_bits(SEA_LEVEL_STEP + sign);
                    let sum = sum_of(parameters.sea_level, step);
                    parameters.sea_level = sum;
                    assert(*parameters == edited(*old(parameters), row, edit, sum));
                },
                Row::Octaves => {
                    match edit {
                        EditType::Increase => {
                            parameters.elevation_parameters.octaves += 1;
                        },
                        _ => {
                            parameters.elevation_parameters.octaves -= 1;
                        },
                    }
                },
                Row::Persistence => {
                    let step = Scalar::from_bits(FACTOR_STEP + sign);
                    let sum = sum_of(parameters.elevation_parameters.persistence, step);
                    parameters.elevation_parameters.persistence = sum;
                    assert(*parameters == edited(*old(parameters), row, edit, sum));
                },
                Row::Lacunarity => {
                    let step = Scalar::from_bits(FACTOR_STEP + sign);
                    let sum = sum_of(parameters.elevation_parameters.lacunarity, step);
                    parameters.elevation_parameters.lacunarity = sum;
                    assert(*parameters == edited(*old(parameters), row, edit, sum));
                },
            }
        },
    }
}

} // verus!
