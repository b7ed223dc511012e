//! Local image generation, the fallback when the cloud fails: its settings, the placeholder
//! image it gives, and the name an image is saved under.
//!
//! The guidance scale is kept in tenths.
use vstd::prelude::*;
use crate::clock::now_seconds;
use crate::text::{owned, push_signed, push_str, signed_decimal, string_of};

verus! {

/// How an image is generated.
#[derive(Debug)]
pub struct GenerationConfig {
    pub model: String,
    pub steps: u32,
    /// In tenths.
    pub guidance_scale_tenths: u32,
    pub width: u32,
    pub height: u32,
}

impl Default for GenerationConfig {
    /// Stable Diffusion 2.1, fifty steps, guidance 7.5, 512 by 512.
    fn default() -> (r: Self)
        ensures
            r.model@ == "stable-diffusion-v2-1"@ && r.steps == 50 && r.guidance_scale_tenths == 75 && r.width == 512
                && r.height == 512,
    {
        GenerationConfig { model: owned("stable-diffusion-v2-1"), steps: 50, guidance_scale_tenths: 75, width: 512, height: 512 }
    }
}

/// Generates images.
pub struct ImageGenerator {
    config: GenerationConfig,
}

/// The name of an image generated at `t` (Unix seconds).
pub open spec fn generated_name(t: int) -> Seq<char> {
    "generated_"@ + signed_decimal(t) + ".png"@
}

impl ImageGenerator {
    /// A generator with these settings.
    pub fn new(config: GenerationConfig) -> (r: Self)
        ensures
            r.config() == config,
    {
        ImageGenerator { config }
    }

    /// The settings.
    pub closed spec fn config(&self) -> GenerationConfig {
        self.config
    }

    /// Generates an image for `prompt`: no model runs, the image is 1024 zero bytes.
    pub fn generate(&self, prompt: &str) -> (r: Result<Vec<u8>, String>)
        ensures
            r matches Ok(v) && v@ == Seq::new(1024, |i: int| 0u8),
    {
        let mut v: Vec<u8> = Vec::new();
        let mut i: usize = 0;
        while i < 1024
            invariant
                i <= 1024,
                v@ == Seq::new(i as nat, |k: int| 0u8),
            decreases 1024 - i,
        {
            v.push(0);
            i = i + 1;
            assert(v@ =~= Seq::new(i as nat, |k: int| 0u8));
        }
        Ok(v)
    }

    /// The name an image generated at `now` (Unix seconds) is saved under.
    pub fn file_name_at(&self, now: i64) -> (r: String)
        ensures
            r@ == generated_name(now as int),
    {
        let mut v: Vec<char> = Vec::new();
        push_str(&mut v, "generated_");
        push_signed(&mut v, now);
        push_str(&mut v, ".png");
        string_of(&v)
    }

    /// Generates an image for `prompt` and names it after the time: the name it is saved
    /// under, and the image (saving it is the caller's part).
    pub fn generate_and_save(&self, prompt: &str) -> (r: Result<(String, Vec<u8>), String>)
        ensures
            r matches Ok(p) && p.1@ == Seq::new(1024, |i: int| 0u8) && exists|t: i64| p.0@ == #[trigger] generated_name(t as int),
    {
        let image = self.generate(prompt)?;
        let name = self.file_name_at(now_seconds());
        Ok((name, image))
    }
}

} // verus!
