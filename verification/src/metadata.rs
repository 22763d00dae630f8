//! # The metadata of a published stream
//!
//! What the client sends with `@setDataFrame` as an AMF0 mixed array, and what
//! the FLV file keeps in its `onMetaData` tag. None of the fields is sent
//! necessarily, so each is optional. The numbers are held as integers: an AMF0
//! number read into a field is converted as Rust's `as u64` does, and a field
//! written back becomes the nearest double.
use vstd::prelude::*;
use crate::amf_number::{number_to_u64, number_to_u64_spec, u64_to_number, u64_to_number_spec, lemma_number_roundtrip};
use crate::messages::{
    AmfData, AmfValue, pairs_value, opt_chars, number_of, boolean_of, string_of, string_pair,
    boolean_pair, number_pair, push_string, push_boolean, push_number, clone_opt_string,
    lemma_pairs_value_remove_first,
};
use crate::text::str_equals;
use vstd::seq_lib::lemma_concat_associative;

verus! {

/// The integer that an AMF0 value holds, if it is a `Number`: the number
/// converted as Rust's `as u64` does.
pub open spec fn integer_of(v: AmfValue) -> Option<u64> {
    match number_of(v) {
        Some(n) => Some(number_to_u64_spec(n)),
        None => None,
    }
}

/// The bits of the double nearest to an integer, where one is given.
pub open spec fn opt_number(o: Option<u64>) -> Option<u64> {
    match o {
        Some(x) => Some(u64_to_number_spec(x)),
        None => None,
    }
}

/// An integer no double misses: below 2^53.
pub open spec fn exact_in_double(o: Option<u64>) -> bool {
    match o {
        Some(x) => x < 9007199254740992,
        None => true,
    }
}

/// # The metadata as the contracts see it
pub struct MetaDataView {
    pub stereo: Option<bool>,
    pub can_seek_to_end: Option<bool>,
    pub audio_codec_id: Option<u64>,
    pub audio_data_rate: Option<u64>,
    pub audio_sample_rate: Option<u64>,
    pub audio_sample_size: Option<u64>,
    pub audio_delay: Option<u64>,
    pub video_codec_id: Option<u64>,
    pub video_data_rate: Option<u64>,
    pub frame_rate: Option<u64>,
    pub width: Option<u64>,
    pub height: Option<u64>,
    pub file_size: Option<u64>,
    pub duration: Option<u64>,
    pub major_brand: Option<Seq<char>>,
    pub minor_version: Option<Seq<char>>,
    pub compatible_brands: Option<Seq<char>>,
    pub encoder: Option<Seq<char>>,
    pub creation_date: Option<Seq<char>>,
}

impl MetaDataView {
    /// The metadata with no field set.
    pub open spec fn empty() -> Self {
        MetaDataView {
            stereo: None,
            can_seek_to_end: None,
            audio_codec_id: None,
            audio_data_rate: None,
            audio_sample_rate: None,
            audio_sample_size: None,
            audio_delay: None,
            video_codec_id: None,
            video_data_rate: None,
            frame_rate: None,
            width: None,
            height: None,
            file_size: None,
            duration: None,
            major_brand: None,
            minor_version: None,
            compatible_brands: None,
            encoder: None,
            creation_date: None,
        }
    }

    /// The metadata after the pair `(k, v)` of an AMF0 object was read into it.
    pub open spec fn apply(self, k: Seq<char>, v: AmfValue) -> Self {
        if k == "stereo"@ {
            MetaDataView { stereo: boolean_of(v), ..self }
        } else if k == "canSeekToEnd"@ {
            MetaDataView { can_seek_to_end: boolean_of(v), ..self }
        } else if k == "audiocodecid"@ {
            MetaDataView { audio_codec_id: integer_of(v), ..self }
        } else if k == "audiodatarate"@ {
            MetaDataView { audio_data_rate: integer_of(v), ..self }
        } else if k == "audiosamplerate"@ {
            MetaDataView { audio_sample_rate: integer_of(v), ..self }
        } else if k == "audiosamplesize"@ {
            MetaDataView { audio_sample_size: integer_of(v), ..self }
        } else if k == "audiodelay"@ {
            MetaDataView { audio_delay: integer_of(v), ..self }
        } else if k == "videocodecid"@ {
            MetaDataView { video_codec_id: integer_of(v), ..self }
        } else if k == "videodatarate"@ {
            MetaDataView { video_data_rate: integer_of(v), ..self }
        } else if k == "framerate"@ {
            MetaDataView { frame_rate: integer_of(v), ..self }
        } else if k == "width"@ {
            MetaDataView { width: integer_of(v), ..self }
        } else if k == "height"@ {
            MetaDataView { height: integer_of(v), ..self }
        } else if k == "filesize"@ {
            MetaDataView { file_size: integer_of(v), ..self }
        } else if k == "duration"@ {
            MetaDataView { duration: integer_of(v), ..self }
        } else if k == "major-brand"@ {
            MetaDataView { major_brand: string_of(v), ..self }
        } else if k == "minor-version"@ {
            MetaDataView { minor_version: string_of(v), ..self }
        } else if k == "compatible-brands"@ {
            MetaDataView { compatible_brands: string_of(v), ..self }
        } else if k == "encoder"@ {
            MetaDataView { encoder: string_of(v), ..self }
        } else if k == "creationdate"@ {
            MetaDataView { creation_date: string_of(v), ..self }
        } else {
            self
        }
    }

    /// The metadata that the pairs of an AMF0 object are read into, in order.
    pub open spec fn from_pairs(s: Seq<(Seq<char>, AmfValue)>) -> Self
        decreases s.len(),
    {
        if s.len() == 0 {
            MetaDataView::empty()
        } else {
            MetaDataView::from_pairs(s.drop_last()).apply(s.last().0, s.last().1)
        }
    }

    /// The pairs of the AMF0 object that this metadata becomes: each field that
    /// is set, in the order of the fields; a number becomes the nearest double.
    pub open spec fn to_pairs(self) -> Seq<(Seq<char>, AmfValue)> {
        boolean_pair("stereo"@, self.stereo)
            + boolean_pair("canSeekToEnd"@, self.can_seek_to_end)
            + number_pair("audiocodecid"@, opt_number(self.audio_codec_id))
            + number_pair("audiodatarate"@, opt_number(self.audio_data_rate))
            + number_pair("audiosamplerate"@, opt_number(self.audio_sample_rate))
            + number_pair("audiosamplesize"@, opt_number(self.audio_sample_size))
            + number_pair("audiodelay"@, opt_number(self.audio_delay))
            + number_pair("videocodecid"@, opt_number(self.video_codec_id))
            + number_pair("videodatarate"@, opt_number(self.video_data_rate))
            + number_pair("framerate"@, opt_number(self.frame_rate))
            + number_pair("width"@, opt_number(self.width))
            + number_pair("height"@, opt_number(self.height))
            + number_pair("filesize"@, opt_number(self.file_size))
            + number_pair("duration"@, opt_number(self.duration))
            + string_pair("major-brand"@, self.major_brand)
            + string_pair("minor-version"@, self.minor_version)
            + string_pair("compatible-brands"@, self.compatible_brands)
            + string_pair("encoder"@, self.encoder)
            + string_pair("creationdate"@, self.creation_date)
    }

    /// Every number of this metadata is below 2^53, so that a double holds it exactly.
    pub open spec fn numbers_exact(self) -> bool {
        exact_in_double(self.audio_codec_id)
        && exact_in_double(self.audio_data_rate)
        && exact_in_double(self.audio_sample_rate)
        && exact_in_double(self.audio_sample_size)
        && exact_in_double(self.audio_delay)
        && exact_in_double(self.video_codec_id)
        && exact_in_double(self.video_data_rate)
        && exact_in_double(self.frame_rate)
        && exact_in_double(self.width)
        && exact_in_double(self.height)
        && exact_in_double(self.file_size)
        && exact_in_double(self.duration)
    }
}

/// # The metadata of FLV
#[derive(Debug)]
pub struct MetaData {
    stereo: Option<bool>,
    can_seek_to_end: Option<bool>,
    audio_codec_id: Option<u64>,
    audio_data_rate: Option<u64>,
    audio_sample_rate: Option<u64>,
    audio_sample_size: Option<u64>,
    audio_delay: Option<u64>,
    video_codec_id: Option<u64>,
    video_data_rate: Option<u64>,
    frame_rate: Option<u64>,
    width: Option<u64>,
    height: Option<u64>,
    file_size: Option<u64>,
    duration: Option<u64>,
    major_brand: Option<String>,
    minor_version: Option<String>,
    compatible_brands: Option<String>,
    encoder: Option<String>,
    creation_date: Option<String>,
}

impl View for MetaData {
    type V = MetaDataView;

    closed spec fn view(&self) -> MetaDataView {
        MetaDataView {
            stereo: self.stereo,
            can_seek_to_end: self.can_seek_to_end,
            audio_codec_id: self.audio_codec_id,
            audio_data_rate: self.audio_data_rate,
            audio_sample_rate: self.audio_sample_rate,
            audio_sample_size: self.audio_sample_size,
            audio_delay: self.audio_delay,
            video_codec_id: self.video_codec_id,
            video_data_rate: self.video_data_rate,
            frame_rate: self.frame_rate,
            width: self.width,
            height: self.height,
            file_size: self.file_size,
            duration: self.duration,
            major_brand: opt_chars(self.major_brand),
            minor_version: opt_chars(self.minor_version),
            compatible_brands: opt_chars(self.compatible_brands),
            encoder: opt_chars(self.encoder),
            creation_date: opt_chars(self.creation_date),
        }
    }
}

impl Clone for MetaData {
    fn clone(&self) -> (r: Self)
        ensures
            r@ == self@,
    {
        MetaData {
            stereo: self.stereo,
            can_seek_to_end: self.can_seek_to_end,
            audio_codec_id: self.audio_codec_id,
            audio_data_rate: self.audio_data_rate,
            audio_sample_rate: self.audio_sample_rate,
            audio_sample_size: self.audio_sample_size,
            audio_delay: self.audio_delay,
            video_codec_id: self.video_codec_id,
            video_data_rate: self.video_data_rate,
            frame_rate: self.frame_rate,
            width: self.width,
            height: self.height,
            file_size: self.file_size,
            duration: self.duration,
            major_brand: clone_opt_string(&self.major_brand),
            minor_version: clone_opt_string(&self.minor_version),
            compatible_brands: clone_opt_string(&self.compatible_brands),
            encoder: clone_opt_string(&self.encoder),
            creation_date: clone_opt_string(&self.creation_date),
        }
    }
}

impl Default for MetaData {
    fn default() -> (r: Self)
        ensures
            r@ == MetaDataView::empty(),
    {
        MetaData::new()
    }
}

impl MetaData {
    /// Constructs a new `MetaData` with no field set.
    pub fn new() -> (r: Self)
        ensures
            r@ == MetaDataView::empty(),
    {
        MetaData {
            stereo: None,
            can_seek_to_end: None,
            audio_codec_id: None,
            audio_data_rate: None,
            audio_sample_rate: None,
            audio_sample_size: None,
            audio_delay: None,
            video_codec_id: None,
            video_data_rate: None,
            frame_rate: None,
            width: None,
            height: None,
            file_size: None,
            duration: None,
            major_brand: None,
            minor_version: None,
            compatible_brands: None,
            encoder: None,
            creation_date: None,
        }
    }

    /// Returns whether the audio is stereo.
    pub fn is_stereo(&mut self) -> (r: Option<bool>)
        ensures
            final(self)@ == old(self)@,
            r == old(self)@.stereo,
    {
        self.stereo
    }

    /// Sets whether the audio is stereo.
    pub fn set_stereo(&mut self, stereo: Option<bool>)
        ensures
            final(self)@ == (MetaDataView { stereo, ..old(self)@ }),
    {
        self.stereo = stereo;
    }

    /// Returns whether the video can seek to its end.
    pub fn can_seek_to_end(&self) -> (r: Option<bool>)
        ensures
            r == self@.can_seek_to_end,
    {
        self.can_seek_to_end
    }

    /// Sets whether the video can seek to its end.
    pub fn set_can_seek_to_end(&mut self, can_seek_to_end: Option<bool>)
        ensures
            final(self)@ == (MetaDataView { can_seek_to_end, ..old(self)@ }),
    {
        self.can_seek_to_end = can_seek_to_end;
    }

    /// Returns the audio codec id.
    pub fn get_audio_codec_id(&self) -> (r: Option<u64>)
        ensures
            r == self@.audio_codec_id,
    {
        self.audio_codec_id
    }

    /// Sets the audio codec id from an AMF0 number (its bits), converted as Rust's `as u64` does.
    pub fn set_audio_codec_id(&mut self, audio_codec_id: Option<u64>)
        ensures
            final(self)@ == (MetaDataView {
                audio_codec_id: match audio_codec_id {
                    Some(n) => Some(number_to_u64_spec(n)),
                    None => None,
                },
                ..old(self)@
            }),
    {
        self.audio_codec_id = match audio_codec_id {
            Some(n) => Some(number_to_u64(n)),
            None => None,
        };
    }

    /// Returns the audio data rate.
    pub fn get_audio_data_rate(&self) -> (r: Option<u64>)
        ensures
            r == self@.audio_data_rate,
    {
        self.audio_data_rate
    }

    /// Sets the audio data rate from an AMF0 number (its bits), converted as Rust's `as u64` does.
    pub fn set_audio_data_rate(&mut self, audio_data_rate: Option<u64>)
        ensures
            final(self)@ == (MetaDataView {
                audio_data_rate: match audio_data_rate {
                    Some(n) => Some(number_to_u64_spec(n)),
                    None => None,
                },
                ..old(self)@
            }),
    {
        self.audio_data_rate = match audio_data_rate {
            Some(n) => Some(number_to_u64(n)),
            None => None,
        };
    }

    /// Returns the audio sample rate.
    pub fn get_audio_sample_rate(&self) -> (r: Option<u64>)
        ensures
            r == self@.audio_sample_rate,
    {
        self.audio_sample_rate
    }

    /// Sets the audio sample rate from an AMF0 number (its bits), converted as Rust's `as u64` does.
    pub fn set_audio_sample_rate(&mut self, audio_sample_rate: Option<u64>)
        ensures
            final(self)@ == (MetaDataView {
                audio_sample_rate: match audio_sample_rate {
                    Some(n) => Some(number_to_u64_spec(n)),
                    None => None,
                },
                ..old(self)@
            }),
    {
        self.audio_sample_rate = match audio_sample_rate {
            Some(n) => Some(number_to_u64(n)),
            None => None,
        };
    }

    /// Returns the audio sample size.
    pub fn get_audio_sample_size(&self) -> (r: Option<u64>)
        ensures
            r == self@.audio_sample_size,
    {
        self.audio_sample_size
    }

    /// Sets the audio sample size from an AMF0 number (its bits), converted as Rust's `as u64` does.
    pub fn set_audio_sample_size(&mut self, audio_sample_size: Option<u64>)
        ensures
            final(self)@ == (MetaDataView {
                audio_sample_size: match audio_sample_size {
                    Some(n) => Some(number_to_u64_spec(n)),
                    None => None,
                },
                ..old(self)@
            }),
    {
        self.audio_sample_size = match audio_sample_size {
            Some(n) => Some(number_to_u64(n)),
            None => None,
        };
    }

    /// Returns the audio delay.
    pub fn get_audio_delay(&self) -> (r: Option<u64>)
        ensures
            r == self@.audio_delay,
    {
        self.audio_delay
    }

    /// Sets the audio delay from an AMF0 number (its bits), converted as Rust's `as u64` does.
    pub fn set_audio_delay(&mut self, audio_delay: Option<u64>)
        ensures
            final(self)@ == (MetaDataView {
                audio_delay: match audio_delay {
                    Some(n) => Some(number_to_u64_spec(n)),
                    None => None,
                },
                ..old(self)@
            }),
    {
        self.audio_delay = match audio_delay {
            Some(n) => Some(number_to_u64(n)),
            None => None,
        };
    }

    /// Returns the video codec id.
    pub fn get_video_codec_id(&self) -> (r: Option<u64>)
        ensures
            r == self@.video_codec_id,
    {
        self.video_codec_id
    }

    /// Sets the video codec id from an AMF0 number (its bits), converted as Rust's `as u64` does.
    pub fn set_video_codec_id(&mut self, video_codec_id: Option<u64>)
        ensures
            final(self)@ == (MetaDataView {
                video_codec_id: match video_codec_id {
                    Some(n) => Some(number_to_u64_spec(n)),
                    None => None,
                },
                ..old(self)@
            }),
    {
        self.video_codec_id = match video_codec_id {
            Some(n) => Some(number_to_u64(n)),
            None => None,
        };
    }

    /// Returns the video data rate.
    pub fn get_video_data_rate(&self) -> (r: Option<u64>)
        ensures
            r == self@.video_data_rate,
    {
        self.video_data_rate
    }

    /// Sets the video data rate from an AMF0 number (its bits), converted as Rust's `as u64` does.
    pub fn set_video_data_rate(&mut self, video_data_rate: Option<u64>)
        ensures
            final(self)@ == (MetaDataView {
                video_data_rate: match video_data_rate {
                    Some(n) => Some(number_to_u64_spec(n)),
                    None => None,
                },
                ..old(self)@
            }),
    {
        self.video_data_rate = match video_data_rate {
            Some(n) => Some(number_to_u64(n)),
            None => None,
        };
    }

    /// Returns the frame rate.
    pub fn get_frame_rate(&self) -> (r: Option<u64>)
        ensures
            r == self@.frame_rate,
    {
        self.frame_rate
    }

    /// Sets the frame rate from an AMF0 number (its bits), converted as Rust's `as u64` does.
    pub fn set_frame_rate(&mut self, frame_rate: Option<u64>)
        ensures
            final(self)@ == (MetaDataView {
                frame_rate: match frame_rate {
                    Some(n) => Some(number_to_u64_spec(n)),
                    None => None,
                },
                ..old(self)@
            }),
    {
        self.frame_rate = match frame_rate {
            Some(n) => Some(number_to_u64(n)),
            None => None,
        };
    }

    /// Returns the width.
    pub fn get_width(&self) -> (r: Option<u64>)
        ensures
            r == self@.width,
    {
        self.width
    }

    /// Sets the width from an AMF0 number (its bits), converted as Rust's `as u64` does.
    pub fn set_width(&mut self, width: Option<u64>)
        ensures
            final(self)@ == (MetaDataView {
                width: match width {
                    Some(n) => Some(number_to_u64_spec(n)),
                    None => None,
                },
                ..old(self)@
            }),
    {
        self.width = match width {
            Some(n) => Some(number_to_u64(n)),
            None => None,
        };
    }

    /// Returns the height.
    pub fn get_height(&self) -> (r: Option<u64>)
        ensures
            r == self@.height,
    {
        self.height
    }

    /// Sets the height from an AMF0 number (its bits), converted as Rust's `as u64` does.
    pub fn set_height(&mut self, height: Option<u64>)
        ensures
            final(self)@ == (MetaDataView {
                height: match height {
                    Some(n) => Some(number_to_u64_spec(n)),
                    None => None,
                },
                ..old(self)@
            }),
    {
        self.height = match height {
            Some(n) => Some(number_to_u64(n)),
            None => None,
        };
    }

    /// Returns the file size.
    pub fn get_file_size(&self) -> (r: Option<u64>)
        ensures
            r == self@.file_size,
    {
        self.file_size
    }

    /// Sets the file size from an AMF0 number (its bits), converted as Rust's `as u64` does.
    pub fn set_file_size(&mut self, file_size: Option<u64>)
        ensures
            final(self)@ == (MetaDataView {
                file_size: match file_size {
                    Some(n) => Some(number_to_u64_spec(n)),
                    None => None,
                },
                ..old(self)@
            }),
    {
        self.file_size = match file_size {
            Some(n) => Some(number_to_u64(n)),
            None => None,
        };
    }

    /// Returns the duration.
    pub fn get_duration(&self) -> (r: Option<u64>)
        ensures
            r == self@.duration,
    {
        self.duration
    }

    /// Sets the duration from an AMF0 number (its bits), converted as Rust's `as u64` does.
    pub fn set_duration(&mut self, duration: Option<u64>)
        ensures
            final(self)@ == (MetaDataView {
                duration: match duration {
                    Some(n) => Some(number_to_u64_spec(n)),
                    None => None,
                },
                ..old(self)@
            }),
    {
        self.duration = match duration {
            Some(n) => Some(number_to_u64(n)),
            None => None,
        };
    }

    /// Returns the major brand.
    pub fn get_major_brand(&self) -> (r: &Option<String>)
        ensures
            opt_chars(*r) == self@.major_brand,
    {
        &self.major_brand
    }

    /// Sets the major brand.
    pub fn set_major_brand(&mut self, major_brand: Option<String>)
        ensures
            final(self)@ == (MetaDataView { major_brand: opt_chars(major_brand), ..old(self)@ }),
    {
        self.major_brand = major_brand;
    }

    /// Returns the minor version.
    pub fn get_minor_version(&self) -> (r: &Option<String>)
        ensures
            opt_chars(*r) == self@.minor_version,
    {
        &self.minor_version
    }

    /// Sets the minor version.
    pub fn set_minor_version(&mut self, minor_version: Option<String>)
        ensures
            final(self)@ == (MetaDataView { minor_version: opt_chars(minor_version), ..old(self)@ }),
    {
        self.minor_version = minor_version;
    }

    /// Returns the compatible brands.
    pub fn get_compatible_brands(&self) -> (r: &Option<String>)
        ensures
            opt_chars(*r) == self@.compatible_brands,
    {
        &self.compatible_brands
    }

    /// Sets the compatible brands.
    pub fn set_compatible_brands(&mut self, compatible_brands: Option<String>)
        ensures
            final(self)@ == (MetaDataView { compatible_brands: opt_chars(compatible_brands), ..old(self)@ }),
    {
        self.compatible_brands = compatible_brands;
    }

    /// Returns the encoder.
    pub fn get_encoder(&self) -> (r: &Option<String>)
        ensures
            opt_chars(*r) == self@.encoder,
    {
        &self.encoder
    }

    /// Sets the encoder.
    pub fn set_encoder(&mut self, encoder: Option<String>)
        ensures
            final(self)@ == (MetaDataView { encoder: opt_chars(encoder), ..old(self)@ }),
    {
        self.encoder = encoder;
    }

    /// Returns the creation date.
    pub fn get_creation_date(&self) -> (r: &Option<String>)
        ensures
            opt_chars(*r) == self@.creation_date,
    {
        &self.creation_date
    }

    /// Sets the creation date.
    pub fn set_creation_date(&mut self, creation_date: Option<String>)
        ensures
            final(self)@ == (MetaDataView { creation_date: opt_chars(creation_date), ..old(self)@ }),
    {
        self.creation_date = creation_date;
    }

    /// Reads the pair `(key, value)` of an AMF0 object into this metadata: a
    /// known name sets its field from the value, an unknown name is ignored.
    pub fn read_pair(&mut self, key: &String, value: AmfData)
        ensures
            final(self)@ == old(self)@.apply(key@, value.value()),
    {
        if str_equals(key, "stereo") {
            self.set_stereo(value.boolean());
        } else if str_equals(key, "canSeekToEnd") {
            self.set_can_seek_to_end(value.boolean());
        } else if str_equals(key, "audiocodecid") {
            self.set_audio_codec_id(value.number());
        } else if str_equals(key, "audiodatarate") {
            self.set_audio_data_rate(value.number());
        } else if str_equals(key, "audiosamplerate") {
            self.set_audio_sample_rate(value.number());
        } else if str_equals(key, "audiosamplesize") {
            self.set_audio_sample_size(value.number());
        } else if str_equals(key, "audiodelay") {
            self.set_audio_delay(value.number());
        } else if str_equals(key, "videocodecid") {
            self.set_video_codec_id(value.number());
        } else if str_equals(key, "videodatarate") {
            self.set_video_data_rate(value.number());
        } else if str_equals(key, "framerate") {
            self.set_frame_rate(value.number());
        } else if str_equals(key, "width") {
            self.set_width(value.number());
        } else if str_equals(key, "height") {
            self.set_height(value.number());
        } else if str_equals(key, "filesize") {
            self.set_file_size(value.number());
        } else if str_equals(key, "duration") {
            self.set_duration(value.number());
        } else if str_equals(key, "major-brand") {
            self.set_major_brand(value.string());
        } else if str_equals(key, "minor-version") {
            self.set_minor_version(value.string());
        } else if str_equals(key, "compatible-brands") {
            self.set_compatible_brands(value.string());
        } else if str_equals(key, "encoder") {
            self.set_encoder(value.string());
        } else if str_equals(key, "creationdate") {
            self.set_creation_date(value.string());
        }
    }

    /// Converts the pairs of an AMF0 object (a mixed array) into metadata,
    /// reading the pairs in order.
    pub fn from_amf_object(o: Vec<(String, AmfData)>) -> (r: MetaData)
        ensures
            r@ == MetaDataView::from_pairs(pairs_value(o@)),
    {
        let ghost all = pairs_value(o@);
        let ghost n = o@.len();
        let mut rest = o;
        let mut r = MetaData::new();
        while rest.len() > 0
            invariant
                rest@.len() <= n,
                all.len() == n,
                pairs_value(rest@) == all.subrange(n - rest@.len(), n as int),
                r@ == MetaDataView::from_pairs(all.subrange(0, n - rest@.len())),
            decreases rest@.len(),
        {
            let ghost before = rest@;
            let ghost k = n - rest@.len();
            proof {
                lemma_pairs_value_remove_first(before);
            }
            let (key, value) = rest.remove(0);
            r.read_pair(&key, value);
            proof {
                assert(rest@ =~= before.subrange(1, before.len() as int));
                assert(all.subrange(0, k + 1).drop_last() =~= all.subrange(0, k));
                assert(all[k] == pairs_value(before)[0]);
                assert(pairs_value(rest@) =~= all.subrange(n - rest@.len(), n as int));
            }
        }
        assert(all.subrange(0, n as int) =~= all);
        r
    }

    /// Converts this metadata into the pairs of an AMF0 object: each field that
    /// is set, in the order of `MetaDataView::to_pairs`.
    pub fn into_amf_object(self) -> (r: Vec<(String, AmfData)>)
        ensures
            pairs_value(r@) == self@.to_pairs(),
    {
        let ghost v = self@;
        let MetaData {
            stereo,
            can_seek_to_end,
            audio_codec_id,
            audio_data_rate,
            audio_sample_rate,
            audio_sample_size,
            audio_delay,
            video_codec_id,
            video_data_rate,
            frame_rate,
            width,
            height,
            file_size,
            duration,
            major_brand,
            minor_version,
            compatible_brands,
            encoder,
            creation_date,
        } = self;
        let mut m: Vec<(String, AmfData)> = Vec::new();
        push_boolean(&mut m, "stereo", stereo);
        push_boolean(&mut m, "canSeekToEnd", can_seek_to_end);
        let n = match audio_codec_id {
            Some(x) => Some(u64_to_number(x)),
            None => None,
        };
        push_number(&mut m, "audiocodecid", n);
        let n = match audio_data_rate {
            Some(x) => Some(u64_to_number(x)),
            None => None,
        };
        push_number(&mut m, "audiodatarate", n);
        let n = match audio_sample_rate {
            Some(x) => Some(u64_to_number(x)),
            None => None,
        };
        push_number(&mut m, "audiosamplerate", n);
        let n = match audio_sample_size {
            Some(x) => Some(u64_to_number(x)),
            None => None,
        };
        push_number(&mut m, "audiosamplesize", n);
        let n = match audio_delay {
            Some(x) => Some(u64_to_number(x)),
            None => None,
        };
        push_number(&mut m, "audiodelay", n);
        let n = match video_codec_id {
            Some(x) => Some(u64_to_number(x)),
            None => None,
        };
        push_number(&mut m, "videocodecid", n);
        let n = match video_data_rate {
            Some(x) => Some(u64_to_number(x)),
            None => None,
        };
        push_number(&mut m, "videodatarate", n);
        let n = match frame_rate {
            Some(x) => Some(u64_to_number(x)),
            None => None,
        };
        push_number(&mut m, "framerate", n);
        let n = match width {
            Some(x) => Some(u64_to_number(x)),
            None => None,
        };
        push_number(&mut m, "width", n);
        let n = match height {
            Some(x) => Some(u64_to_number(x)),
            None => None,
        };
        push_number(&mut m, "height", n);
        let n = match file_size {
            Some(x) => Some(u64_to_number(x)),
            None => None,
        };
        push_number(&mut m, "filesize", n);
        let n = match duration {
            Some(x) => Some(u64_to_number(x)),
            None => None,
        };
        push_number(&mut m, "duration", n);
        push_string(&mut m, "major-brand", major_brand);
        push_string(&mut m, "minor-version", minor_version);
        push_string(&mut m, "compatible-brands", compatible_brands);
        push_string(&mut m, "encoder", encoder);
        push_string(&mut m, "creationdate", creation_date);
        assert(Seq::<(Seq<char>, AmfValue)>::empty() + boolean_pair("stereo"@, v.stereo) =~= boolean_pair(
            "stereo"@,
            v.stereo,
        ));
        m
    }
}


/// The metadata that the pairs `s` are read into, in order, starting from `w`.
pub open spec fn apply_pairs(w: MetaDataView, s: Seq<(Seq<char>, AmfValue)>) -> MetaDataView
    decreases s.len(),
{
    if s.len() == 0 {
        w
    } else {
        apply_pairs(w, s.drop_last()).apply(s.last().0, s.last().1)
    }
}

/// The new value where one is given, the old one otherwise.
pub open spec fn or_keep<T>(new: Option<T>, old: Option<T>) -> Option<T> {
    match new {
        Some(x) => Some(x),
        None => old,
    }
}

/// Reading pairs from nothing is reading them into the empty metadata.
proof fn lemma_meta_from_pairs_is_apply(s: Seq<(Seq<char>, AmfValue)>)
    ensures
        MetaDataView::from_pairs(s) == apply_pairs(MetaDataView::empty(), s),
    decreases s.len(),
{
    if s.len() > 0 {
        lemma_meta_from_pairs_is_apply(s.drop_last());
    }
}

/// Reading `a + b` is reading `a`, then `b`.
proof fn lemma_meta_apply_concat(w: MetaDataView, a: Seq<(Seq<char>, AmfValue)>, b: Seq<(Seq<char>, AmfValue)>)
    ensures
        apply_pairs(w, a + b) == apply_pairs(apply_pairs(w, a), b),
    decreases b.len(),
{
    if b.len() == 0 {
        assert(a + b =~= a);
    } else {
        assert((a + b).drop_last() =~= a + b.drop_last());
        lemma_meta_apply_concat(w, a, b.drop_last());
    }
}

/// Reading one more pair, or none.
proof fn lemma_meta_apply_append(w: MetaDataView, s: Seq<(Seq<char>, AmfValue)>, t: Seq<(Seq<char>, AmfValue)>)
    requires
        t.len() <= 1,
    ensures
        apply_pairs(w, s + t) == if t.len() == 0 {
            apply_pairs(w, s)
        } else {
            apply_pairs(w, s).apply(t[0].0, t[0].1)
        },
{
    if t.len() == 0 {
        assert(s + t =~= s);
    } else {
        assert((s + t).drop_last() =~= s);
    }
}

/// The lengths and first differing characters of the names, which tell them apart.
proof fn lemma_meta_names_differ()
    ensures
        "stereo"@.len() == 6,
        "canSeekToEnd"@.len() == 12,
        "audiocodecid"@.len() == 12,
        "audiodatarate"@.len() == 13,
        "audiosamplerate"@.len() == 15,
        "audiosamplesize"@.len() == 15,
        "audiodelay"@.len() == 10,
        "videocodecid"@.len() == 12,
        "videodatarate"@.len() == 13,
        "framerate"@.len() == 9,
        "width"@.len() == 5,
        "height"@.len() == 6,
        "filesize"@.len() == 8,
        "duration"@.len() == 8,
        "major-brand"@.len() == 11,
        "minor-version"@.len() == 13,
        "compatible-brands"@.len() == 17,
        "encoder"@.len() == 7,
        "creationdate"@.len() == 12,
        "stereo"@[0] != "height"@[0],
        "canSeekToEnd"@[0] != "audiocodecid"@[0],
        "canSeekToEnd"@[0] != "videocodecid"@[0],
        "canSeekToEnd"@[1] != "creationdate"@[1],
        "audiocodecid"@[0] != "videocodecid"@[0],
        "audiocodecid"@[0] != "creationdate"@[0],
        "videocodecid"@[0] != "creationdate"@[0],
        "audiodatarate"@[0] != "videodatarate"@[0],
        "audiodatarate"@[0] != "minor-version"@[0],
        "videodatarate"@[0] != "minor-version"@[0],
        "audiosamplerate"@[11] != "audiosamplesize"@[11],
        "filesize"@[0] != "duration"@[0],
{
    reveal_strlit("stereo");
    reveal_strlit("canSeekToEnd");
    reveal_strlit("audiocodecid");
    reveal_strlit("audiodatarate");
    reveal_strlit("audiosamplerate");
    reveal_strlit("audiosamplesize");
    reveal_strlit("audiodelay");
    reveal_strlit("videocodecid");
    reveal_strlit("videodatarate");
    reveal_strlit("framerate");
    reveal_strlit("width");
    reveal_strlit("height");
    reveal_strlit("filesize");
    reveal_strlit("duration");
    reveal_strlit("major-brand");
    reveal_strlit("minor-version");
    reveal_strlit("compatible-brands");
    reveal_strlit("encoder");
    reveal_strlit("creationdate");
}

/// Reading the pairs of the fields from stereo to audio_sample_rate sets those that are given.
proof fn lemma_meta_roundtrip_part0(v: MetaDataView, w0: MetaDataView)
    requires
        v.numbers_exact(),
    ensures
        apply_pairs(w0, meta_pairs_part0(v)) == (MetaDataView {
            stereo: or_keep(v.stereo, w0.stereo),
            can_seek_to_end: or_keep(v.can_seek_to_end, w0.can_seek_to_end),
            audio_codec_id: or_keep(v.audio_codec_id, w0.audio_codec_id),
            audio_data_rate: or_keep(v.audio_data_rate, w0.audio_data_rate),
            audio_sample_rate: or_keep(v.audio_sample_rate, w0.audio_sample_rate),
            ..w0
        }),
{
    lemma_meta_names_differ();
    if let Some(x) = v.audio_codec_id {
        lemma_number_roundtrip(x);
    }
    if let Some(x) = v.audio_data_rate {
        lemma_number_roundtrip(x);
    }
    if let Some(x) = v.audio_sample_rate {
        lemma_number_roundtrip(x);
    }
    let e = Seq::<(Seq<char>, AmfValue)>::empty();
    let p0 = boolean_pair("stereo"@, v.stereo);
    let p1 = boolean_pair("canSeekToEnd"@, v.can_seek_to_end);
    let p2 = number_pair("audiocodecid"@, opt_number(v.audio_codec_id));
    let p3 = number_pair("audiodatarate"@, opt_number(v.audio_data_rate));
    let p4 = number_pair("audiosamplerate"@, opt_number(v.audio_sample_rate));
    assert(e + p0 =~= p0);
    lemma_meta_apply_append(w0, e, p0);
    lemma_meta_apply_append(w0, p0, p1);
    lemma_meta_apply_append(w0, p0 + p1, p2);
    lemma_meta_apply_append(w0, p0 + p1 + p2, p3);
    lemma_meta_apply_append(w0, p0 + p1 + p2 + p3, p4);
}

/// Reading the pairs of the fields from audio_sample_size to frame_rate sets those that are given.
proof fn lemma_meta_roundtrip_part1(v: MetaDataView, w0: MetaDataView)
    requires
        v.numbers_exact(),
    ensures
        apply_pairs(w0, meta_pairs_part1(v)) == (MetaDataView {
            audio_sample_size: or_keep(v.audio_sample_size, w0.audio_sample_size),
            audio_delay: or_keep(v.audio_delay, w0.audio_delay),
            video_codec_id: or_keep(v.video_codec_id, w0.video_codec_id),
            video_data_rate: or_keep(v.video_data_rate, w0.video_data_rate),
            frame_rate: or_keep(v.frame_rate, w0.frame_rate),
            ..w0
        }),
{
    lemma_meta_names_differ();
    if let Some(x) = v.audio_sample_size {
        lemma_number_roundtrip(x);
    }
    if let Some(x) = v.audio_delay {
        lemma_number_roundtrip(x);
    }
    if let Some(x) = v.video_codec_id {
        lemma_number_roundtrip(x);
    }
    if let Some(x) = v.video_data_rate {
        lemma_number_roundtrip(x);
    }
    if let Some(x) = v.frame_rate {
        lemma_number_roundtrip(x);
    }
    let e = Seq::<(Seq<char>, AmfValue)>::empty();
    let p0 = number_pair("audiosamplesize"@, opt_number(v.audio_sample_size));
    let p1 = number_pair("audiodelay"@, opt_number(v.audio_delay));
    let p2 = number_pair("videocodecid"@, opt_number(v.video_codec_id));
    let p3 = number_pair("videodatarate"@, opt_number(v.video_data_rate));
    let p4 = number_pair("framerate"@, opt_number(v.frame_rate));
    assert(e + p0 =~= p0);
    lemma_meta_apply_append(w0, e, p0);
    lemma_meta_apply_append(w0, p0, p1);
    lemma_meta_apply_append(w0, p0 + p1, p2);
    lemma_meta_apply_append(w0, p0 + p1 + p2, p3);
    lemma_meta_apply_append(w0, p0 + p1 + p2 + p3, p4);
}

/// Reading the pairs of the fields from width to major_brand sets those that are given.
proof fn lemma_meta_roundtrip_part2(v: MetaDataView, w0: MetaDataView)
    requires
        v.numbers_exact(),
    ensures
        apply_pairs(w0, meta_pairs_part2(v)) == (MetaDataView {
            width: or_keep(v.width, w0.width),
            height: or_keep(v.height, w0.height),
            file_size: or_keep(v.file_size, w0.file_size),
            duration: or_keep(v.duration, w0.duration),
            major_brand: or_keep(v.major_brand, w0.major_brand),
            ..w0
        }),
{
    lemma_meta_names_differ();
    if let Some(x) = v.width {
        lemma_number_roundtrip(x);
    }
    if let Some(x) = v.height {
        lemma_number_roundtrip(x);
    }
    if let Some(x) = v.file_size {
        lemma_number_roundtrip(x);
    }
    if let Some(x) = v.duration {
        lemma_number_roundtrip(x);
    }
    let e = Seq::<(Seq<char>, AmfValue)>::empty();
    let p0 = number_pair("width"@, opt_number(v.width));
    let p1 = number_pair("height"@, opt_number(v.height));
    let p2 = number_pair("filesize"@, opt_number(v.file_size));
    let p3 = number_pair("duration"@, opt_number(v.duration));
    let p4 = string_pair("major-brand"@, v.major_brand);
    assert(e + p0 =~= p0);
    lemma_meta_apply_append(w0, e, p0);
    lemma_meta_apply_append(w0, p0, p1);
    lemma_meta_apply_append(w0, p0 + p1, p2);
    lemma_meta_apply_append(w0, p0 + p1 + p2, p3);
    lemma_meta_apply_append(w0, p0 + p1 + p2 + p3, p4);
}

/// Reading the pairs of the fields from minor_version to creation_date sets those that are given.
proof fn lemma_meta_roundtrip_part3(v: MetaDataView, w0: MetaDataView)
    requires
        v.numbers_exact(),
    ensures
        apply_pairs(w0, meta_pairs_part3(v)) == (MetaDataView {
            minor_version: or_keep(v.minor_version, w0.minor_version),
            compatible_brands: or_keep(v.compatible_brands, w0.compatible_brands),
            encoder: or_keep(v.encoder, w0.encoder),
            creation_date: or_keep(v.creation_date, w0.creation_date),
            ..w0
        }),
{
    lemma_meta_names_differ();
    let e = Seq::<(Seq<char>, AmfValue)>::empty();
    let p0 = string_pair("minor-version"@, v.minor_version);
    let p1 = string_pair("compatible-brands"@, v.compatible_brands);
    let p2 = string_pair("encoder"@, v.encoder);
    let p3 = string_pair("creationdate"@, v.creation_date);
    assert(e + p0 =~= p0);
    lemma_meta_apply_append(w0, e, p0);
    lemma_meta_apply_append(w0, p0, p1);
    lemma_meta_apply_append(w0, p0 + p1, p2);
    lemma_meta_apply_append(w0, p0 + p1 + p2, p3);
}

/// The pairs of the fields from stereo to audio_sample_rate.
pub open spec fn meta_pairs_part0(v: MetaDataView) -> Seq<(Seq<char>, AmfValue)> {
    boolean_pair("stereo"@, v.stereo)
        + boolean_pair("canSeekToEnd"@, v.can_seek_to_end)
        + number_pair("audiocodecid"@, opt_number(v.audio_codec_id))
        + number_pair("audiodatarate"@, opt_number(v.audio_data_rate))
        + number_pair("audiosamplerate"@, opt_number(v.audio_sample_rate))
}

/// The pairs of the fields from audio_sample_size to frame_rate.
pub open spec fn meta_pairs_part1(v: MetaDataView) -> Seq<(Seq<char>, AmfValue)> {
    number_pair("audiosamplesize"@, opt_number(v.audio_sample_size))
        + number_pair("audiodelay"@, opt_number(v.audio_delay))
        + number_pair("videocodecid"@, opt_number(v.video_codec_id))
        + number_pair("videodatarate"@, opt_number(v.video_data_rate))
        + number_pair("framerate"@, opt_number(v.frame_rate))
}

/// The pairs of the fields from width to major_brand.
pub open spec fn meta_pairs_part2(v: MetaDataView) -> Seq<(Seq<char>, AmfValue)> {
    number_pair("width"@, opt_number(v.width))
        + number_pair("height"@, opt_number(v.height))
        + number_pair("filesize"@, opt_number(v.file_size))
        + number_pair("duration"@, opt_number(v.duration))
        + string_pair("major-brand"@, v.major_brand)
}

/// The pairs of the fields from minor_version to creation_date.
pub open spec fn meta_pairs_part3(v: MetaDataView) -> Seq<(Seq<char>, AmfValue)> {
    string_pair("minor-version"@, v.minor_version)
        + string_pair("compatible-brands"@, v.compatible_brands)
        + string_pair("encoder"@, v.encoder)
        + string_pair("creationdate"@, v.creation_date)
}

/// The pairs of metadata are those of its four runs of fields, one after the other.
proof fn lemma_meta_to_pairs_parts(v: MetaDataView)
    ensures
        v.to_pairs() == meta_pairs_part0(v) + meta_pairs_part1(v) + meta_pairs_part2(v)
            + meta_pairs_part3(v),
{
    let p0 = boolean_pair("stereo"@, v.stereo);
    let p1 = boolean_pair("canSeekToEnd"@, v.can_seek_to_end);
    let p2 = number_pair("audiocodecid"@, opt_number(v.audio_codec_id));
    let p3 = number_pair("audiodatarate"@, opt_number(v.audio_data_rate));
    let p4 = number_pair("audiosamplerate"@, opt_number(v.audio_sample_rate));
    let p5 = number_pair("audiosamplesize"@, opt_number(v.audio_sample_size));
    let p6 = number_pair("audiodelay"@, opt_number(v.audio_delay));
    let p7 = number_pair("videocodecid"@, opt_number(v.video_codec_id));
    let p8 = number_pair("videodatarate"@, opt_number(v.video_data_rate));
    let p9 = number_pair("framerate"@, opt_number(v.frame_rate));
    let p10 = number_pair("width"@, opt_number(v.width));
    let p11 = number_pair("height"@, opt_number(v.height));
    let p12 = number_pair("filesize"@, opt_number(v.file_size));
    let p13 = number_pair("duration"@, opt_number(v.duration));
    let p14 = string_pair("major-brand"@, v.major_brand);
    let p15 = string_pair("minor-version"@, v.minor_version);
    let p16 = string_pair("compatible-brands"@, v.compatible_brands);
    let p17 = string_pair("encoder"@, v.encoder);
    let p18 = string_pair("creationdate"@, v.creation_date);
    let b0 = meta_pairs_part0(v);
    lemma_concat_associative(b0, p5, p6);
    lemma_concat_associative(b0, p5 + p6, p7);
    lemma_concat_associative(b0, p5 + p6 + p7, p8);
    lemma_concat_associative(b0, p5 + p6 + p7 + p8, p9);
    let b1 = b0 + meta_pairs_part1(v);
    lemma_concat_associative(b1, p10, p11);
    lemma_concat_associative(b1, p10 + p11, p12);
    lemma_concat_associative(b1, p10 + p11 + p12, p13);
    lemma_concat_associative(b1, p10 + p11 + p12 + p13, p14);
    let b2 = b1 + meta_pairs_part2(v);
    lemma_concat_associative(b2, p15, p16);
    lemma_concat_associative(b2, p15 + p16, p17);
    lemma_concat_associative(b2, p15 + p16 + p17, p18);
    let b3 = b2 + meta_pairs_part3(v);
}

/// Converting metadata into the pairs of an AMF0 object and back gives the same
/// metadata, where every number is below 2^53.
pub proof fn lemma_meta_data_roundtrip(v: MetaDataView)
    requires
        v.numbers_exact(),
    ensures
        MetaDataView::from_pairs(v.to_pairs()) == v,
{
    let a0 = meta_pairs_part0(v);
    let a1 = meta_pairs_part1(v);
    let a2 = meta_pairs_part2(v);
    let a3 = meta_pairs_part3(v);
    lemma_meta_to_pairs_parts(v);
    lemma_meta_from_pairs_is_apply(a0 + a1 + a2 + a3);
    lemma_meta_apply_concat(MetaDataView::empty(), a0 + a1 + a2, a3);
    lemma_meta_apply_concat(MetaDataView::empty(), a0 + a1, a2);
    lemma_meta_apply_concat(MetaDataView::empty(), a0, a1);
    let w1 = apply_pairs(MetaDataView::empty(), a0);
    lemma_meta_roundtrip_part0(v, MetaDataView::empty());
    let w2 = apply_pairs(w1, a1);
    lemma_meta_roundtrip_part1(v, w1);
    let w3 = apply_pairs(w2, a2);
    lemma_meta_roundtrip_part2(v, w2);
    lemma_meta_roundtrip_part3(v, w3);
}

} // verus!
