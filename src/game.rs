use vstd::prelude::*;
use crate::camera::{Camera, DrawTransform, grid_x_of, grid_y_of, zoom_after_scroll, dragged, updated, initial_camera};
use crate::geometry::{in_range, UNITS_PER_PIXEL};
use crate::hexgrid::{Hexgrid, cell_count, cell_placed, selection_after};

verus! {

/// Columns of the game's grid.
pub const GRID_WIDTH: i32 = 21;

/// Rows of the game's grid.
pub const GRID_HEIGHT: i32 = 14;

/// Outer radius of the game's cells: one hundred pixels.
pub const CELL_RADIUS: i64 = 100 * UNITS_PER_PIXEL;

/// Relies on rand::random: a value drawn from the thread-local generator.
/// Nothing is promised of the value.
pub assume_specification<T>[ rand::random::<T> ]() -> (r: T)
    where
        rand::distributions::Standard: rand::distributions::Distribution<T>,
;

#[derive(Clone, Copy, Debug, PartialEq, Eq, Structural)]
pub enum MouseButton {
    /// Pans the view.
    Left,
    /// Picks a cell.
    Right,
    Other,
}

#[derive(Clone, Copy, Debug, PartialEq, Eq, Structural)]
pub enum Key {
    /// Toggles fullscreen.
    F,
    /// Attaches a random image to the selected cell.
    B,
    Other,
}

#[derive(Clone, Copy, Debug, PartialEq, Eq)]
pub struct WindowSettings {
    pub toggle_fullscreen: bool,
    pub is_fullscreen: bool,
    pub is_resizable: bool,
}

/// The controller: the grid, the view and the window flags. Images are
/// held elsewhere; cells refer to them by index below `image_count`.
#[derive(Debug)]
pub struct Game {
    pub hexgrid: Hexgrid,
    pub camera: Camera,
    pub window_settings: WindowSettings,
    pub image_count: usize,
}

impl Game {
    pub open spec fn wf(&self) -> bool {
        &&& self.hexgrid.wf()
        &&& self.camera.wf()
    }

    /// The game's 21 by 14 grid of cells of radius `CELL_RADIUS`, colored by
    /// `depths` (one sample per cell, see `Hexgrid::new`), seen at zoom 1.0
    /// with no offset.
    pub fn new(depths: &Vec<i64>, image_count: usize) -> (g: Game)
        requires
            depths@.len() == cell_count(GRID_WIDTH as int, GRID_HEIGHT as int),
        ensures
            g.wf(),
            g.hexgrid.cells@.len() == cell_count(GRID_WIDTH as int, GRID_HEIGHT as int),
            forall|k: int|
                0 <= k < g.hexgrid.cells@.len() ==> cell_placed(
                    #[trigger] g.hexgrid.cells@[k],
                    k,
                    GRID_HEIGHT as int,
                    CELL_RADIUS as int,
                    depths@[k] as int,
                ),
            g.hexgrid.selected_index.is_none(),
            g.camera == initial_camera(),
            g.window_settings == (WindowSettings {
                toggle_fullscreen: false,
                is_fullscreen: false,
                is_resizable: true,
            }),
            g.image_count == image_count,
    {
        Game {
            hexgrid: Hexgrid::new(GRID_WIDTH, GRID_HEIGHT, CELL_RADIUS, depths),
            camera: Camera::new(),
            window_settings: WindowSettings {
                toggle_fullscreen: false,
                is_fullscreen: false,
                is_resizable: true,
            },
            image_count,
        }
    }

    /// The left button starts a pan at `(x, y)`; the right button picks the
    /// cell under `(x, y)`, mapped into grid coordinates.
    pub fn mouse_button_down_event(&mut self, button: MouseButton, x: i64, y: i64)
        requires
            old(self).wf(),
            in_range(x as int),
            in_range(y as int),
        ensures
            final(self).wf(),
            final(self).image_count == old(self).image_count,
            final(self).window_settings == old(self).window_settings,
            final(self).hexgrid.cells@ == old(self).hexgrid.cells@,
            button == MouseButton::Left ==> final(self).camera.dragging
                && final(self).camera.last_pointer.x == x && final(self).camera.last_pointer.y == y
                && final(self).camera.velocity.x == 0 && final(self).camera.velocity.y == 0
                && final(self).camera.offset == old(self).camera.offset
                && final(self).camera.zoom == old(self).camera.zoom,
            button != MouseButton::Left ==> final(self).camera == old(self).camera,
            button == MouseButton::Right ==> final(self).hexgrid.selected_index == selection_after(
                old(self).hexgrid.selected_index,
                old(self).hexgrid.cells@,
                grid_x_of(old(self).camera.offset.x as int, old(self).camera.zoom as int, x as int),
                grid_y_of(old(self).camera.offset.y as int, old(self).camera.zoom as int, y as int),
            ),
            button != MouseButton::Right ==> final(self).hexgrid.selected_index
                == old(self).hexgrid.selected_index,
    {
        if button == MouseButton::Left {
            self.camera.begin_drag(x, y);
        }
        if button == MouseButton::Right {
            let p = self.camera.screen_to_grid(x, y);
            self.hexgrid.select(p.x, p.y);
        }
    }

    /// Releasing the left button ends a pan.
    pub fn mouse_button_up_event(&mut self, button: MouseButton)
        requires
            old(self).wf(),
        ensures
            final(self).wf(),
            button == MouseButton::Left ==> final(self).camera == (Camera {
                dragging: false,
                ..old(self).camera
            }),
            button != MouseButton::Left ==> final(self).camera == old(self).camera,
            final(self).hexgrid.cells@ == old(self).hexgrid.cells@,
            final(self).hexgrid.selected_index == old(self).hexgrid.selected_index,
            final(self).window_settings == old(self).window_settings,
            final(self).image_count == old(self).image_count,
    {
        if button == MouseButton::Left {
            self.camera.end_drag();
        }
    }

    /// Pointer movement to `(x, y)` pans the view while a pan is under way.
    pub fn mouse_motion_event(&mut self, x: i64, y: i64)
        requires
            old(self).wf(),
            in_range(x as int),
            in_range(y as int),
        ensures
            final(self).wf(),
            dragged(old(self).camera, final(self).camera, x as int, y as int),
            final(self).hexgrid.cells@ == old(self).hexgrid.cells@,
            final(self).hexgrid.selected_index == old(self).hexgrid.selected_index,
            final(self).window_settings == old(self).window_settings,
            final(self).image_count == old(self).image_count,
    {
        self.camera.drag_to(x, y);
    }

    /// One scroll tick of vertical delta `dy` zooms in or out by a tenth.
    pub fn mouse_wheel_event(&mut self, dy: i64)
        requires
            old(self).wf(),
        ensures
            final(self).wf(),
            final(self).camera.zoom == zoom_after_scroll(old(self).camera.zoom as int, dy as int),
            final(self).camera == (Camera { zoom: final(self).camera.zoom, ..old(self).camera }),
            final(self).hexgrid.cells@ == old(self).hexgrid.cells@,
            final(self).hexgrid.selected_index == old(self).hexgrid.selected_index,
            final(self).window_settings == old(self).window_settings,
            final(self).image_count == old(self).image_count,
    {
        self.camera.scroll(dy);
    }

    /// Attaches image `pick % image_count` to the selected cell. With no
    /// cell selected, or no images, nothing changes.
    pub fn attach_image(&mut self, pick: usize)
        requires
            old(self).wf(),
        ensures
            final(self).wf(),
            final(self).camera == old(self).camera,
            final(self).window_settings == old(self).window_settings,
            final(self).image_count == old(self).image_count,
            final(self).hexgrid.selected_index == old(self).hexgrid.selected_index,
            final(self).hexgrid.cells@.len() == old(self).hexgrid.cells@.len(),
            match old(self).hexgrid.selected_index {
                Some(s) if old(self).image_count > 0 => {
                    &&& final(self).hexgrid.cells@[s as int].image == Some(
                        (pick % old(self).image_count) as usize,
                    )
                    &&& final(self).hexgrid.cells@[s as int].corners@ == old(
                        self,
                    ).hexgrid.cells@[s as int].corners@
                    &&& final(self).hexgrid.cells@[s as int].color == old(
                        self,
                    ).hexgrid.cells@[s as int].color
                    &&& forall|k: int|
                        0 <= k < final(self).hexgrid.cells@.len() && k != s ==> (
                        #[trigger] final(self).hexgrid.cells@[k]) == old(self).hexgrid.cells@[k]
                },
                _ => final(self).hexgrid.cells@ == old(self).hexgrid.cells@,
            },
    {
        match self.hexgrid.selected_index {
            Some(s) => {
                if self.image_count > 0 {
                    let image = pick % self.image_count;
                    self.hexgrid.set_image(s, image);
                }
            },
            None => {},
        }
    }

    /// `F` toggles fullscreen; `B` attaches a randomly chosen image to the
    /// selected cell, as `attach_image` does for some value drawn at random.
    pub fn key_up_event(&mut self, key: Key)
        requires
            old(self).wf(),
        ensures
            final(self).wf(),
            final(self).camera == old(self).camera,
            final(self).image_count == old(self).image_count,
            final(self).hexgrid.selected_index == old(self).hexgrid.selected_index,
            final(self).hexgrid.cells@.len() == old(self).hexgrid.cells@.len(),
            key == Key::F ==> final(self).window_settings == (WindowSettings {
                toggle_fullscreen: true,
                is_fullscreen: !old(self).window_settings.is_fullscreen,
                ..old(self).window_settings
            }),
            key != Key::F ==> final(self).window_settings == old(self).window_settings,
            key != Key::B ==> final(self).hexgrid.cells@ == old(self).hexgrid.cells@,
            key == Key::B ==> match old(self).hexgrid.selected_index {
                Some(s) if old(self).image_count > 0 => {
                    &&& final(self).hexgrid.cells@[s as int].image.is_some()
                    &&& final(self).hexgrid.cells@[s as int].image.unwrap() < old(self).image_count
                    &&& final(self).hexgrid.cells@[s as int].corners@ == old(
                        self,
                    ).hexgrid.cells@[s as int].corners@
                    &&& final(self).hexgrid.cells@[s as int].color == old(
                        self,
                    ).hexgrid.cells@[s as int].color
                    &&& forall|k: int|
                        0 <= k < final(self).hexgrid.cells@.len() && k != s ==> (
                        #[trigger] final(self).hexgrid.cells@[k]) == old(self).hexgrid.cells@[k]
                },
                _ => final(self).hexgrid.cells@ == old(self).hexgrid.cells@,
            },
    {
        match key {
            Key::F => {
                self.window_settings.toggle_fullscreen = true;
                self.window_settings.is_fullscreen = !self.window_settings.is_fullscreen;
            },
            Key::B => {
                if self.hexgrid.selected_index.is_some() && self.image_count > 0 {
                    let pick: usize = rand::random::<usize>();
                    self.attach_image(pick);
                }
            },
            Key::Other => {},
        }
    }

    /// Advances the view by one frame (inertial panning, when switched on).
    pub fn update(&mut self)
        requires
            old(self).wf(),
        ensures
            final(self).wf(),
            updated(old(self).camera, final(self).camera),
            final(self).hexgrid.cells@ == old(self).hexgrid.cells@,
            final(self).hexgrid.selected_index == old(self).hexgrid.selected_index,
            final(self).window_settings == old(self).window_settings,
            final(self).image_count == old(self).image_count,
    {
        self.camera.update();
    }

    /// The transform under which the grid is drawn this frame.
    pub fn draw_transform(&self) -> (t: DrawTransform)
        ensures
            t == (DrawTransform { dest: self.camera.offset, zoom: self.camera.zoom }),
    {
        self.camera.draw_transform()
    }
}

} // verus!
