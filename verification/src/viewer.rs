//! The state of a viewer of a world: its colours, the picture it draws of the world, the
//! cursor of its parameter editor, and what it does on a key.
//!
//! Shading is arithmetic on real values and is the caller's, like the kernels that generate
//! the world: the shade kernel is given a channel of each of two colours, the two ends of a
//! range of values and a value, and gives the channel at the place of the value in the range.
//! The library makes an opaque colour of the three channels that it has shaded.

use crate::editor::action_on;
use crate::editor::cursor_after;
use crate::editor::edit_row;
use crate::editor::is_edit;
use crate::editor::row_of;
use crate::editor::EditType;
use crate::editor::Key;
use crate::editor::KeyAction;
use crate::editor::Row;
use crate::editor::ROW_COUNT;
use crate::grid::index_of;
use crate::grid::lemma_site_in_grid;
use crate::grid::Site;
use crate::noisemap::FalloffParameters;
use crate::noisemap::NoiseParameters;
use crate::noisemap::OctaveState;
use crate::offsets::fresh_seed;
use crate::scalar::Scalar;
use crate::world::is_elevation;
use crate::world::kernels_cover;
use crate::world::ParameterError;
use crate::world::World;
use crate::world::WorldParameters;
use vstd::prelude::*;

verus! {

/// An RGBA colour, one byte per channel.
pub struct Color {
    pub r: u8,
    pub g: u8,
    pub b: u8,
    pub a: u8,
}

impl Color {
    /// The opaque colour of the three channels.
    pub fn rgb(r: u8, g: u8, b: u8) -> (color: Color)
        ensures
            color == (Color { r, g, b, a: 255 }),
    {
        Color { r, g, b, a: 255 }
    }

    /// The four channels in the order red, green, blue, alpha.
    pub open spec fn channels(self) -> Seq<u8> {
        seq![self.r, self.g, self.b, self.a]
    }

    /// The four channels in the order red, green, blue, alpha.
    pub fn into_vec(self) -> (bytes: Vec<u8>)
        ensures
            bytes@ == self.channels(),
    {
        vec![self.r, self.g, self.b, self.a]
    }
}

/// The colours between which sea and land are shaded.
pub struct Colors {
    pub sea_low: Color,
    pub sea_high: Color,
    pub land_low: Color,
    pub land_high: Color,
}

/// The bytes of a run of pixels: four per pixel, its channels.
pub open spec fn rgba_bytes(pixels: Seq<Color>) -> Seq<u8> {
    Seq::new(4 * pixels.len(), |i: int| pixels[i / 4].channels()[i % 4])
}

/// The elevation field of the world has the size that the parameters give.
pub open spec fn is_drawable(world: &World) -> bool {
    &&& world.elevation.wf()
    &&& world.elevation.width == world.parameters.width
    &&& world.elevation.height == world.parameters.height
}

/// The two colours between which the cell at column `x` of row `y` is shaded, and the two ends
/// of the range by which it is shaded. A cell below the sea level is shaded between the two
/// sea colours, by where its value lies between the least value and the sea level, or the
/// greatest value where that is less. Any other cell is shaded between the two land colours,
/// by where its value lies between the sea level, or the least value where that is more, and
/// the greatest value.
pub open spec fn shading(world: &World, colors: &Colors, x: int, y: int) -> (
    Color,
    Color,
    Scalar,
    Scalar,
) {
    let elevation = world.elevation;
    let value = elevation.map@[index_of(x, y, elevation.width as int)];
    let sea_level = world.parameters.sea_level;
    if value.below(sea_level) {
        (colors.sea_low, colors.sea_high, elevation.min, sea_level.lesser(elevation.max))
    } else {
        (colors.land_low, colors.land_high, sea_level.greater(elevation.min), elevation.max)
    }
}

/// `color` is a colour of the cell at column `x` of row `y`: it is opaque, and each of its
/// three channels is what `shade` may give for that channel of the two colours of the cell,
/// the range of the cell and the value of the cell.
pub open spec fn is_pixel_color<S: Fn(u8, u8, Scalar, Scalar, Scalar) -> u8>(
    shade: &S,
    world: &World,
    colors: &Colors,
    x: int,
    y: int,
    color: Color,
) -> bool {
    let value = world.elevation.map@[index_of(x, y, world.elevation.width as int)];
    let (low, high, from, to) = shading(world, colors, x, y);
    &&& color.a == 255
    &&& call_ensures(shade, (low.r, high.r, from, to, value), color.r)
    &&& call_ensures(shade, (low.g, high.g, from, to, value), color.g)
    &&& call_ensures(shade, (low.b, high.b, from, to, value), color.b)
}

/// The shade kernel accepts whatever it is called on.
pub open spec fn shade_is_total<S: Fn(u8, u8, Scalar, Scalar, Scalar) -> u8>(
    shade: &S,
) -> bool {
    forall|low: u8, high: u8, from: Scalar, to: Scalar, value: Scalar| #[trigger]
        call_requires(shade, (low, high, from, to, value))
}

/// `pixels` holds the colour of every cell of the world, row by row.
pub open spec fn is_picture<S: Fn(u8, u8, Scalar, Scalar, Scalar) -> u8>(
    shade: &S,
    world: &World,
    colors: &Colors,
    pixels: Seq<Color>,
) -> bool {
    &&& pixels.len() == world.parameters.width * world.parameters.height
    &&& forall|i: int|
        0 <= i < pixels.len() ==> is_pixel_color(
            shade,
            world,
            colors,
            i % (world.parameters.width as int),
            i / (world.parameters.width as int),
            #[trigger] pixels[i],
        )
}

/// The picture of a world of this size has room in a buffer: four bytes per cell.
pub open spec fn picture_fits(parameters: WorldParameters) -> bool {
    4 * (parameters.width * parameters.height) <= usize::MAX
}

/// The kernels accept whatever they are called on.
pub open spec fn kernels_are_total<
    K: Fn(&NoiseParameters, Site, (u32, u32), OctaveState) -> OctaveState,
    F: Fn(&FalloffParameters, Site, Scalar, Scalar, Scalar) -> Scalar,
    P: Fn(Scalar, Scalar) -> Scalar,
    S: Fn(u8, u8, Scalar, Scalar, Scalar) -> u8,
    A: Fn(Scalar, Scalar) -> Scalar,
>(kernel: &K, falloff_kernel: &F, product: &P, shade: &S, sum_of: &A) -> bool {
    &&& forall|parameters: &NoiseParameters, site: Site, offset: (u32, u32), state: OctaveState| #[trigger]
        call_requires(kernel, (parameters, site, offset, state))
    &&& forall|falloff: &FalloffParameters, site: Site, value: Scalar, min: Scalar, max: Scalar| #[trigger]
        call_requires(falloff_kernel, (falloff, site, value, min, max))
    &&& forall|a: Scalar, b: Scalar| #[trigger] call_requires(product, (a, b))
    &&& shade_is_total(shade)
    &&& forall|a: Scalar, b: Scalar| #[trigger] call_requires(sum_of, (a, b))
}

/// `after` is the viewer `before` with its world generated anew from `seed` under
/// `parameters` and drawn, or, where `done` is the fault of the parameter set, with the field
/// and the picture that it had.
pub open spec fn is_regenerated<
    K: Fn(&NoiseParameters, Site, (u32, u32), OctaveState) -> OctaveState,
    F: Fn(&FalloffParameters, Site, Scalar, Scalar, Scalar) -> Scalar,
    P: Fn(Scalar, Scalar) -> Scalar,
    S: Fn(u8, u8, Scalar, Scalar, Scalar) -> u8,
>(
    kernel: &K,
    falloff_kernel: &F,
    product: &P,
    shade: &S,
    before: WorldViewer,
    seed: u64,
    parameters: WorldParameters,
    after: WorldViewer,
    done: Result<(), ParameterError>,
) -> bool {
    &&& parameters.validated(product, done)
    &&& after.colors == before.colors
    &&& after.world.parameters == parameters
    &&& done is Err ==> {
        &&& after.world.seed == before.world.seed
        &&& after.world.elevation == before.world.elevation
        &&& after.buffer == before.buffer
    }
    &&& done is Ok ==> {
        &&& after.world.seed == seed
        &&& is_elevation(kernel, falloff_kernel, seed, parameters, after.world.elevation)
        &&& after.shows_world(shade)
    }
}

/// The state of a viewer: the world it shows, the colours it shows it in, the pixels of its
/// picture of the world, and the row of the parameter editor that its cursor is on.
pub struct WorldViewer {
    pub world: World,
    pub colors: Colors,
    /// The picture, four bytes per cell; empty until it is first drawn.
    pub buffer: Vec<u8>,
    /// The place of the cursor, from the top.
    pub current_row: usize,
}

impl WorldViewer {
    /// The picture is that of the world: the channels of the colour of every cell, row by row.
    pub open spec fn shows_world<S: Fn(u8, u8, Scalar, Scalar, Scalar) -> u8>(
        &self,
        shade: &S,
    ) -> bool {
        exists|pixels: Seq<Color>| #[trigger]
            is_picture(shade, &self.world, &self.colors, pixels) && self.buffer@ == rgba_bytes(
                pixels,
            )
    }

    /// A viewer of the world, with no picture yet and the cursor on the top row.
    pub fn new(world: World, colors: Colors) -> (viewer: WorldViewer)
        ensures
            viewer.world == world,
            viewer.colors == colors,
            viewer.buffer@ == Seq::<u8>::empty(),
            viewer.current_row == 0,
    {
        WorldViewer { world, colors, buffer: Vec::new(), current_row: 0 }
    }

    /// Draws the picture of the world anew: the channels of the colour of every cell, row by
    /// row.
    pub fn update_buffer<S: Fn(u8, u8, Scalar, Scalar, Scalar) -> u8>(
        &mut self,
        shade: &S,
    )
        requires
            is_drawable(&old(self).world),
            picture_fits(old(self).world.parameters),
            shade_is_total(shade),
        ensures
            final(self).world == old(self).world,
            final(self).colors == old(self).colors,
            final(self).current_row == old(self).current_row,
            final(self).shows_world(shade),
    {
        let width = self.world.parameters.width;
        let height = self.world.parameters.height;
        let cells = width * height;
        let mut buffer: Vec<u8> = Vec::new();
        let ghost mut pixels: Seq<Color> = Seq::empty();
        let mut i: usize = 0;
        while i < cells
            invariant
                i <= cells,
                cells == width * height,
                4 * cells <= usize::MAX,
                width == self.world.parameters.width,
                height == self.world.parameters.height,
                *self == *old(self),
                is_drawable(&self.world),
                pixels.len() == i,
                buffer@ == rgba_bytes(pixels),
                shade_is_total(shade),
                forall|j: int|
                    0 <= j < i ==> is_pixel_color(
                        shade,
                        &self.world,
                        &self.colors,
                        j % (width as int),
                        j / (width as int),
                        #[trigger] pixels[j],
                    ),
            decreases cells - i,
        {
            proof {
                lemma_site_in_grid(i as int, width as int, height as int);
            }
            let color = self.pixel_color(i % width, i / width, shade);
            let ghost before = buffer@;
            let ghost channels = color.channels();
            buffer.push(color.r);
            buffer.push(color.g);
            buffer.push(color.b);
            buffer.push(color.a);
            proof {
                assert(buffer@ =~= before + channels);
                assert(rgba_bytes(pixels.push(color)) =~= rgba_bytes(pixels) + channels);
                pixels = pixels.push(color);
            }
            i += 1;
        }
        self.buffer = buffer;
        proof {
            assert(is_picture(shade, &self.world, &self.colors, pixels));
        }
    }

    /// The colour of the cell at column `x` of row `y`: the opaque colour of the three channels
    /// that `shade` gives, red first, then green, then blue.
    pub fn pixel_color<S: Fn(u8, u8, Scalar, Scalar, Scalar) -> u8>(
        &self,
        x: usize,
        y: usize,
        shade: &S,
    ) -> (color: Color)
        requires
            self.world.elevation.wf(),
            x < self.world.elevation.width,
            y < self.world.elevation.height,
            shade_is_total(shade),
        ensures
            is_pixel_color(shade, &self.world, &self.colors, x as int, y as int, color),
    {
        let elevation = &self.world.elevation;
        let value = elevation.get(x, y);
        let sea_level = self.world.parameters.sea_level;
        if self.world.is_sea(x, y) {
            Self::interpolate_colors(
                &self.colors.sea_low,
                &self.colors.sea_high,
                elevation.min,
                sea_level.min(elevation.max),
                value,
                shade,
            )
        } else {
            Self::interpolate_colors(
                &self.colors.land_low,
                &self.colors.land_high,
                sea_level.max(elevation.min),
                elevation.max,
                value,
                shade,
            )
        }
    }

    /// The opaque colour between two colours, channel by channel.
    fn interpolate_colors<S: Fn(u8, u8, Scalar, Scalar, Scalar) -> u8>(
        low: &Color,
        high: &Color,
        from: Scalar,
        to: Scalar,
        value: Scalar,
        shade: &S,
    ) -> (color: Color)
        requires
            shade_is_total(shade),
        ensures
            color.a == 255,
            call_ensures(shade, (low.r, high.r, from, to, value), color.r),
            call_ensures(shade, (low.g, high.g, from, to, value), color.g),
            call_ensures(shade, (low.b, high.b, from, to, value), color.b),
    {
        let r = shade(low.r, high.r, from, to, value);
        let g = shade(low.g, high.g, from, to, value);
        let b = shade(low.b, high.b, from, to, value);
        Color::rgb(r, g, b)
    }

    /// Takes a key: moves the cursor, and says what the viewer is to do. An edit needs a row
    /// under the cursor. A cursor that is on a row or just behind the last one stays so.
    pub fn key_down(&mut self, key: Key, repeat: bool) -> (action: KeyAction)
        requires
            key == Key::Left || key == Key::Right ==> old(self).current_row < ROW_COUNT,
        ensures
            final(self).current_row == cursor_after(old(self).current_row, key),
            action == action_on(old(self).current_row, key, repeat),
            old(self).current_row <= ROW_COUNT ==> final(self).current_row <= ROW_COUNT,
            final(self).world == old(self).world,
            final(self).colors == old(self).colors,
            final(self).buffer == old(self).buffer,
    {
        let cursor = self.current_row;
        match key {
            Key::Return => if repeat {
                KeyAction::Stay
            } else {
                KeyAction::NewWorld
            },
            Key::Up => {
                if cursor == 0 {
                    self.current_row = ROW_COUNT - 1;
                } else {
                    self.current_row = cursor - 1;
                }
                KeyAction::Stay
            },
            Key::Down => {
                if cursor >= ROW_COUNT {
                    self.current_row = 0;
                } else {
                    self.current_row = cursor + 1;
                }
                KeyAction::Stay
            },
            Key::Right => KeyAction::Edit(row_of(cursor), EditType::Increase),
            Key::Left => KeyAction::Edit(row_of(cursor), EditType::Decrease),
            Key::Other => KeyAction::Stay,
        }
    }

    /// Generates the world anew from a seed and the parameter set as it stands, and draws it.
    /// Where the parameter set is at fault, the field and the picture stay as they were.
    pub fn regenerate<
        K: Fn(&NoiseParameters, Site, (u32, u32), OctaveState) -> OctaveState,
        F: Fn(&FalloffParameters, Site, Scalar, Scalar, Scalar) -> Scalar,
        P: Fn(Scalar, Scalar) -> Scalar,
        S: Fn(u8, u8, Scalar, Scalar, Scalar) -> u8,
    >(&mut self, seed: u64, kernel: &K, falloff_kernel: &F, product: &P, shade: &S) -> (done:
        Result<(), ParameterError>)
        requires
            kernels_cover(kernel, falloff_kernel, old(self).world.parameters),
            forall|a: Scalar, b: Scalar| #[trigger] call_requires(product, (a, b)),
            shade_is_total(shade),
            picture_fits(old(self).world.parameters),
        ensures
            is_regenerated(
                kernel,
                falloff_kernel,
                product,
                shade,
                *old(self),
                seed,
                old(self).world.parameters,
                *final(self),
                done,
            ),
            final(self).current_row == old(self).current_row,
    {
        match self.world.generate(seed, kernel, falloff_kernel, product) {
            Err(fault) => Err(fault),
            Ok(()) => {
                self.update_buffer(shade);
                Ok(())
            },
        }
    }

    /// Takes a key and does what it asks for. Return, unless repeating, replaces the world by
    /// the world of a fresh seed, which the thread's generator gives. Right and Left edit the
    /// row under the cursor and generate the world anew from the seed it has. In both cases the
    /// picture is drawn anew, unless the parameter set is at fault: then the fault comes back,
    /// and the field and the picture stay. Up and Down move the cursor.
    pub fn key_down_event<
        K: Fn(&NoiseParameters, Site, (u32, u32), OctaveState) -> OctaveState,
        F: Fn(&FalloffParameters, Site, Scalar, Scalar, Scalar) -> Scalar,
        P: Fn(Scalar, Scalar) -> Scalar,
        S: Fn(u8, u8, Scalar, Scalar, Scalar) -> u8,
        A: Fn(Scalar, Scalar) -> Scalar,
    >(
        &mut self,
        key: Key,
        repeat: bool,
        kernel: &K,
        falloff_kernel: &F,
        product: &P,
        shade: &S,
        sum_of: &A,
    ) -> (done: Result<(), ParameterError>)
        requires
            key == Key::Left || key == Key::Right ==> old(self).current_row < ROW_COUNT,
            action_on(old(self).current_row, key, repeat) == KeyAction::Edit(
                Row::Octaves,
                EditType::Increase,
            ) ==> old(self).world.parameters.elevation_parameters.octaves < usize::MAX,
            action_on(old(self).current_row, key, repeat) == KeyAction::Edit(
                Row::Octaves,
                EditType::Decrease,
            ) ==> old(self).world.parameters.elevation_parameters.octaves > 0,
            kernels_are_total(kernel, falloff_kernel, product, shade, sum_of),
            picture_fits(old(self).world.parameters),
        ensures
            final(self).current_row == cursor_after(old(self).current_row, key),
            old(self).current_row <= ROW_COUNT ==> final(self).current_row <= ROW_COUNT,
            match action_on(old(self).current_row, key, repeat) {
                KeyAction::Stay => {
                    &&& done is Ok
                    &&& final(self).world == old(self).world
                    &&& final(self).colors == old(self).colors
                    &&& final(self).buffer == old(self).buffer
                },
                KeyAction::NewWorld => exists|seed: u64| #[trigger]
                    is_regenerated(
                        kernel,
                        falloff_kernel,
                        product,
                        shade,
                        *old(self),
                        seed,
                        old(self).world.parameters,
                        *final(self),
                        done,
                    ),
                KeyAction::Edit(row, edit) => {
                    &&& is_edit(
                        sum_of,
                        old(self).world.parameters,
                        row,
                        edit,
                        final(self).world.parameters,
                    )
                    &&& is_regenerated(
                        kernel,
                        falloff_kernel,
                        product,
                        shade,
                        *old(self),
                        old(self).world.seed,
                        final(self).world.parameters,
                        *final(self),
                        done,
                    )
                },
            },
    {
        match self.key_down(key, repeat) {
            KeyAction::Stay => Ok(()),
            KeyAction::NewWorld => {
                let seed = fresh_seed();
                let done = self.regenerate(seed, kernel, falloff_kernel, product, shade);
                proof {
                    assert(is_regenerated(
                        kernel,
                        falloff_kernel,
                        product,
                        shade,
                        *old(self),
                        seed,
                        old(self).world.parameters,
                        *self,
                        done,
                    ));
                }
                done
            },
            KeyAction::Edit(row, edit) => {
                edit_row(&mut self.world.parameters, row, edit, sum_of);
                let seed = self.world.seed;
                self.regenerate(seed, kernel, falloff_kernel, product, shade)
            },
        }
    }
}

} // verus!
