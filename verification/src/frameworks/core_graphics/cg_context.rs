//! `CGContext.h`: the graphics state of a context (fill and stroke colours,
//! transformation matrix) with its save/restore stack, and what the drawing
//! calls do with null contexts. Drawing into the bitmap and the
//! floating-point geometry are the host's work; colour components and
//! matrix entries (`f32`) are carried as their bit patterns.

use vstd::prelude::*;

verus! {

/// `CGContextRef`: the guest address of a context; 0 is null.
pub type CGContextRef = u32;

/// An RGBA colour (`f32` components as bit patterns).
#[derive(Clone, Copy, Debug, PartialEq, Eq, Structural)]
pub struct ColorBits {
    pub red: u32,
    pub green: u32,
    pub blue: u32,
    pub alpha: u32,
}

/// `CGAffineTransform` (`f32` entries as bit patterns).
#[derive(Clone, Copy, Debug, PartialEq, Eq, Structural)]
pub struct TransformBits {
    pub a: u32,
    pub b: u32,
    pub c: u32,
    pub d: u32,
    pub tx: u32,
    pub ty: u32,
}

/// A saved graphics state: fill colour, stroke colour, transformation.
#[derive(Clone, Copy, Debug, PartialEq, Eq, Structural)]
pub struct GState {
    pub fill: ColorBits,
    pub stroke: ColorBits,
    pub transform: TransformBits,
}

/// The bitmap behind a bitmap context: its data, and whether the context
/// allocated (and so frees) it.
#[derive(Clone, Copy, Debug, PartialEq, Eq, Structural)]
pub struct CGBitmapContextData {
    pub data: u32,
    pub data_is_owned: bool,
}

/// The kinds of context.
#[derive(Clone, Copy, Debug, PartialEq, Eq, Structural)]
pub enum CGContextSubclass {
    CGBitmapContext(CGBitmapContextData),
}

/// The host-side state of a context.
#[derive(Debug)]
pub struct CGContextHostObject {
    pub subclass: CGContextSubclass,
    pub rgb_fill_color: ColorBits,
    pub rgb_stroke_color: ColorBits,
    pub transform: TransformBits,
    pub state_stack: Vec<GState>,
}

impl CGContextHostObject {
    /// The current graphics state.
    pub open spec fn gstate(&self) -> GState {
        GState { fill: self.rgb_fill_color, stroke: self.rgb_stroke_color, transform: self.transform }
    }

    /// A context with the given bitmap and initial state, and no saved
    /// states.
    pub fn new(subclass: CGContextSubclass, fill: ColorBits, stroke: ColorBits, transform: TransformBits) -> (r:
        Self)
        ensures
            r.subclass == subclass,
            r.gstate() == (GState { fill, stroke, transform }),
            r.state_stack@.len() == 0,
    {
        CGContextHostObject {
            subclass,
            rgb_fill_color: fill,
            rgb_stroke_color: stroke,
            transform,
            state_stack: Vec::new(),
        }
    }

    /// `dealloc`: the bitmap data to free, where the context owns it.
    pub fn dealloc(&self) -> (r: Option<u32>)
        ensures
            r == (match self.subclass {
                CGContextSubclass::CGBitmapContext(b) => if b.data_is_owned {
                    Some(b.data)
                } else {
                    None
                },
            }),
    {
        match self.subclass {
            CGContextSubclass::CGBitmapContext(b) => if b.data_is_owned {
                Some(b.data)
            } else {
                None
            },
        }
    }

    /// `CGContextSetRGBFillColor`.
    #[allow(non_snake_case)]
    pub fn CGContextSetRGBFillColor(&mut self, color: ColorBits)
        ensures
            final(self).rgb_fill_color == color,
            final(self).rgb_stroke_color == old(self).rgb_stroke_color,
            final(self).transform == old(self).transform,
            final(self).state_stack@ == old(self).state_stack@,
            final(self).subclass == old(self).subclass,
    {
        self.rgb_fill_color = color;
    }

    /// `CGContextSetRGBStrokeColor`.
    #[allow(non_snake_case)]
    pub fn CGContextSetRGBStrokeColor(&mut self, color: ColorBits)
        ensures
            final(self).rgb_stroke_color == color,
            final(self).rgb_fill_color == old(self).rgb_fill_color,
            final(self).transform == old(self).transform,
            final(self).state_stack@ == old(self).state_stack@,
            final(self).subclass == old(self).subclass,
    {
        self.rgb_stroke_color = color;
    }

    /// `CGContextSetGrayFillColor`: the fill colour becomes the grey level
    /// in all three components, with the given alpha.
    #[allow(non_snake_case)]
    pub fn CGContextSetGrayFillColor(&mut self, gray: u32, alpha: u32)
        ensures
            final(self).rgb_fill_color == (ColorBits { red: gray, green: gray, blue: gray, alpha }),
            final(self).rgb_stroke_color == old(self).rgb_stroke_color,
            final(self).transform == old(self).transform,
            final(self).state_stack@ == old(self).state_stack@,
            final(self).subclass == old(self).subclass,
    {
        self.rgb_fill_color = ColorBits { red: gray, green: gray, blue: gray, alpha };
    }

    /// `CGContextGetCTM`: the current transformation.
    #[allow(non_snake_case)]
    pub fn CGContextGetCTM(&self) -> (r: TransformBits)
        ensures
            r == self.transform,
    {
        self.transform
    }

    /// `CGContextConcatCTM` (and the rotate, scale and translate calls): the
    /// transformation becomes the product that the caller computed from
    /// the current one.
    #[allow(non_snake_case)]
    pub fn CGContextConcatCTM(&mut self, product: TransformBits)
        ensures
            final(self).transform == product,
            final(self).rgb_fill_color == old(self).rgb_fill_color,
            final(self).rgb_stroke_color == old(self).rgb_stroke_color,
            final(self).state_stack@ == old(self).state_stack@,
            final(self).subclass == old(self).subclass,
    {
        self.transform = product;
    }

    /// `CGContextSaveGState`: pushes the current graphics state.
    #[allow(non_snake_case)]
    pub fn CGContextSaveGState(&mut self)
        ensures
            final(self).state_stack@ == old(self).state_stack@.push(old(self).gstate()),
            final(self).gstate() == old(self).gstate(),
            final(self).subclass == old(self).subclass,
    {
        let saved = GState {
            fill: self.rgb_fill_color,
            stroke: self.rgb_stroke_color,
            transform: self.transform,
        };
        self.state_stack.push(saved);
    }

    /// `CGContextRestoreGState`: pops the last saved graphics state and
    /// makes it current; with nothing saved, nothing changes.
    #[allow(non_snake_case)]
    pub fn CGContextRestoreGState(&mut self)
        ensures
            old(self).state_stack@.len() == 0 ==> final(self).gstate() == old(self).gstate()
                && final(self).state_stack@ == old(self).state_stack@,
            old(self).state_stack@.len() > 0 ==> final(self).gstate() == old(self).state_stack@.last()
                && final(self).state_stack@ == old(self).state_stack@.drop_last(),
            final(self).subclass == old(self).subclass,
    {
        if let Some(state) = self.state_stack.pop() {
            self.rgb_fill_color = state.fill;
            self.rgb_stroke_color = state.stroke;
            self.transform = state.transform;
        }
    }
}

/// Whether a float bit pattern is zero (either sign), as `==` on floats
/// sees it.
pub open spec fn is_float_zero(bits: u32) -> bool {
    bits == 0 || bits == 0x8000_0000
}

/// Whether a transformation equals the identity, entry by entry as floats.
pub open spec fn is_identity(t: TransformBits) -> bool {
    &&& t.a == 0x3f80_0000
    &&& is_float_zero(t.b)
    &&& is_float_zero(t.c)
    &&& t.d == 0x3f80_0000
    &&& is_float_zero(t.tx)
    &&& is_float_zero(t.ty)
}

impl TransformBits {
    /// `is_identity`: compares with the identity as floats do.
    pub fn is_identity(&self) -> (r: bool)
        ensures
            r == is_identity(*self),
    {
        self.a == 0x3f80_0000 && (self.b == 0 || self.b == 0x8000_0000) && (self.c == 0 || self.c
            == 0x8000_0000) && self.d == 0x3f80_0000 && (self.tx == 0 || self.tx == 0x8000_0000)
            && (self.ty == 0 || self.ty == 0x8000_0000)
    }
}

impl CGContextHostObject {
    /// `CGContextClipToRect`: only a clip to the whole context (a rectangle
    /// at the origin with the context's width and height, compared as
    /// floats by the caller) is supported, and only while the
    /// transformation is the identity; such a clip changes nothing.
    #[allow(non_snake_case)]
    pub fn CGContextClipToRect(&self, covers_whole_context: bool)
        requires
            covers_whole_context,
            is_identity(self.transform),
    {
    }
}

/// `CGContextRetain`: returns the context, and whether it is retained
/// (where it is not null).
#[allow(non_snake_case)]
pub fn CGContextRetain(c: CGContextRef) -> (r: (CGContextRef, bool))
    ensures
        r == (c, c != 0),
{
    (c, c != 0)
}

/// `CGContextRelease`: whether the context is released (where it is not
/// null).
#[allow(non_snake_case)]
pub fn CGContextRelease(c: CGContextRef) -> (r: bool)
    ensures
        r == (c != 0),
{
    c != 0
}

/// What a drawing call does with the bitmap.
#[derive(Debug, PartialEq, Eq, Structural)]
pub enum DrawAction {
    /// Nothing (a null context).
    Skip,
    /// Fill the rectangle with the fill colour.
    Fill,
    /// Clear the rectangle.
    Clear,
    /// Draw the image into the rectangle.
    DrawImage,
}

/// `CGContextFillRect`: fills, except in a null context.
#[allow(non_snake_case)]
pub fn CGContextFillRect(context: CGContextRef) -> (r: DrawAction)
    ensures
        r == (if context == 0 { DrawAction::Skip } else { DrawAction::Fill }),
{
    if context == 0 {
        DrawAction::Skip
    } else {
        DrawAction::Fill
    }
}

/// `CGContextClearRect`: clears.
#[allow(non_snake_case)]
pub fn CGContextClearRect(context: CGContextRef) -> (r: DrawAction)
    ensures
        r == DrawAction::Clear,
{
    DrawAction::Clear
}

/// `CGContextDrawImage`: draws, except in a null context.
#[allow(non_snake_case)]
pub fn CGContextDrawImage(context: CGContextRef) -> (r: DrawAction)
    ensures
        r == (if context == 0 { DrawAction::Skip } else { DrawAction::DrawImage }),
{
    if context == 0 {
        DrawAction::Skip
    } else {
        DrawAction::DrawImage
    }
}

/// Saving the graphics state, changing colours or the transformation
/// (which leaves the saved states alone), then restoring, brings back the
/// state that was saved and the stack as it was before the save.
pub proof fn lemma_restore_undoes_save(
    before: CGContextHostObject,
    saved: CGContextHostObject,
    changed: CGContextHostObject,
    restored: CGContextHostObject,
)
    requires
        saved.state_stack@ == before.state_stack@.push(before.gstate()),
        changed.state_stack@ == saved.state_stack@,
        changed.state_stack@.len() > 0 ==> restored.gstate() == changed.state_stack@.last()
            && restored.state_stack@ == changed.state_stack@.drop_last(),
    ensures
        restored.gstate() == before.gstate(),
        restored.state_stack@ == before.state_stack@,
{
    assert(before.state_stack@.push(before.gstate()).drop_last() =~= before.state_stack@);
}

} // verus!
