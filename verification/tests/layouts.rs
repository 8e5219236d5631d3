//! Layouts of fields, kernels, maps and words.

use flow_lenia_gpu::activation_buffer::{
    flatten_activation_channel_major, readback_activation, unflatten_activation_channel_major,
    upload_activation,
};
use flow_lenia_gpu::config::{BorderMode, KernelEntry, KernelParams};
use flow_lenia_gpu::config_border::BorderCode;
use flow_lenia_gpu::device::{Command, CommandEncoder, GpuContext};
use flow_lenia_gpu::field::{ActivationField, KernelImage};
use flow_lenia_gpu::globals::GpuGlobals;
use flow_lenia_gpu::kernel_buffers::{
    decode_meta, readback_kernels, readback_meta, upload_kernels, GpuKernelMeta, KernelBank,
    KernelBankError,
};
use flow_lenia_gpu::passes::affinity_growth::{
    flatten_p_map_cell_major, upload_constant_weights, upload_localized_weights,
    GpuConstantWeights, MAX_KERNELS,
};
use flow_lenia_gpu::passes::kernel_fft::{build_padded_kernel, pack_kernel_ffts};
use flow_lenia_gpu::passes::parameter_map::{build_for_patches, upload, CreaturePatch};
use flow_lenia_gpu::readback::decode_readback;
use flow_lenia_gpu::words::{bytes_to_words, words_to_bytes};

fn bits(values: &[f32]) -> Vec<u32> {
    values.iter().map(|v| v.to_bits()).collect()
}

fn floats(words: &[u32]) -> Vec<f32> {
    words.iter().map(|w| f32::from_bits(*w)).collect()
}

fn image(rows: &[&[f32]]) -> KernelImage {
    let mut k = KernelImage::zeros(rows.len(), rows[0].len());
    for (y, row) in rows.iter().enumerate() {
        for (x, v) in row.iter().enumerate() {
            k.set(y, x, v.to_bits());
        }
    }
    k
}

fn square_image(side: usize, seed: usize) -> KernelImage {
    let mut k = KernelImage::zeros(side, side);
    for y in 0..side {
        for x in 0..side {
            let v = ((y * 31 + x * 17 + seed * 7) % 97) as f32 / 97.0 + 0.01;
            k.set(y, x, v.to_bits());
        }
    }
    k
}

fn entry(c0: u32, c1: u32) -> KernelEntry {
    KernelEntry {
        c0,
        c1,
        h: 1.0_f32.to_bits(),
        mu: 0.15_f32.to_bits(),
        sigma: 0.02_f32.to_bits(),
    }
}

#[test]
fn flatten_unflatten_round_trip() {
    let (h, w, c) = (5, 7, 3);
    let mut a = ActivationField::zeros(h, w, c);
    for y in 0..h {
        for x in 0..w {
            for ci in 0..c {
                let v = ((y * 13 + x * 7 + ci * 31) % 17) as f32 / 17.0;
                a.set(y, x, ci, v.to_bits());
            }
        }
    }
    let flat = flatten_activation_channel_major(&a);
    let back = unflatten_activation_channel_major(&flat, h, w, c);
    assert_eq!(back.dim(), (h, w, c));
    for y in 0..h {
        for x in 0..w {
            for ci in 0..c {
                assert_eq!(a.get(y, x, ci), back.get(y, x, ci));
            }
        }
    }
}

#[test]
fn channel_major_places_each_element() {
    let (h, w, c) = (2, 3, 2);
    let mut a = ActivationField::zeros(h, w, c);
    a.set(1, 2, 1, 77);
    a.set(0, 1, 0, 5);
    let flat = flatten_activation_channel_major(&a);
    assert_eq!(flat.len(), 12);
    assert_eq!(flat[1 * h * w + 1 * w + 2], 77);
    assert_eq!(flat[1], 5);
    assert_eq!(flat.iter().filter(|v| **v != 0).count(), 2);
}

#[test]
fn empty_fields_flatten_to_nothing() {
    let a = ActivationField::zeros(0, 4, 3);
    assert_eq!(flatten_activation_channel_major(&a).len(), 0);
    let b = unflatten_activation_channel_major(&[], 0, 4, 3);
    assert_eq!(b.dim(), (0, 4, 3));
}

#[test]
fn uploaded_activation_reads_back() {
    let mut a = ActivationField::zeros(2, 2, 1);
    a.set(0, 0, 0, 1.5_f32.to_bits());
    a.set(1, 1, 0, 0xdead_beef);
    let mut ctx = GpuContext::new();
    let b = upload_activation(&mut ctx, &a);
    assert_eq!(b.id, 0);
    let d = &ctx.buffers[0];
    assert_eq!(d.size, 16);
    assert!(d.usage.storage && d.usage.copy_src && d.usage.copy_dst && !d.usage.uniform);
    let bytes = d.contents.as_ref().unwrap();
    assert_eq!(&bytes[0..4], &1.5_f32.to_le_bytes());
    assert_eq!(&bytes[12..16], &[0xef, 0xbe, 0xad, 0xde]);
    let back = readback_activation(bytes, 2, 2, 1).unwrap();
    assert_eq!(back.get(0, 0, 0), 1.5_f32.to_bits());
    assert_eq!(back.get(1, 1, 0), 0xdead_beef);
    assert_eq!(back.get(0, 1, 0), 0);
    assert!(readback_activation(&bytes[0..12], 2, 2, 1).is_none());
}

#[test]
fn words_and_bytes_round_trip() {
    let words = vec![0, 1, 0x0102_0304, u32::MAX, 1.0_f32.to_bits()];
    let bytes = words_to_bytes(&words);
    assert_eq!(bytes.len(), 20);
    assert_eq!(&bytes[8..12], &[4, 3, 2, 1]);
    assert_eq!(&bytes[16..20], &1.0_f32.to_le_bytes());
    assert_eq!(bytes_to_words(&bytes), Some(words));
    assert_eq!(bytes_to_words(&bytes[1..]), None);
    assert_eq!(bytes_to_words(&[]), Some(vec![]));
    assert_eq!(bytes_to_words(&bytes[3..7]), Some(vec![u32::from_le_bytes([0, 1, 0, 0])]));
    assert_eq!(decode_readback(&bytes, 5).unwrap().len(), 5);
    assert_eq!(decode_readback(&bytes, 4), None);
}

#[test]
fn gpu_kernel_meta_layout() {
    assert_eq!(std::mem::size_of::<GpuKernelMeta>(), 16);
    assert_eq!(std::mem::align_of::<GpuKernelMeta>(), 4);
}

#[test]
fn upload_constant_radius_has_no_padding() {
    let bank = KernelBank {
        params: KernelParams { kernels: vec![entry(0, 0); 4] },
        images: (0..4).map(|_| square_image(27, 3)).collect(),
        radii: vec![13; 4],
    };
    let mut ctx = GpuContext::new();
    let buffers = upload_kernels(&mut ctx, &bank).unwrap();
    assert_eq!(buffers.max_side, 27);
    assert_eq!(buffers.count, 4);
    assert_eq!(buffers.padded_kernel_len(), 729);
    assert_eq!(buffers.kernels_bytes(), 4 * 729 * 4);
    assert_eq!(buffers.meta_bytes(), 64);

    let gpu = bytes_to_words(ctx.buffers[buffers.kernels.id].contents.as_ref().unwrap()).unwrap();
    let stride = 27 * 27;
    for k in 0..4 {
        for y in 0..27 {
            for x in 0..27 {
                assert_eq!(gpu[k * stride + y * 27 + x], bank.images[k].get(y, x));
            }
        }
    }
}

#[test]
fn upload_then_readback_is_bit_equal() {
    let sides = [5, 9, 3, 9, 7, 1];
    let bank = KernelBank {
        params: KernelParams {
            kernels: (0..6)
                .map(|i| KernelEntry {
                    c0: i % 3,
                    c1: (i + 1) % 3,
                    h: 1.0_f32.to_bits(),
                    mu: (0.1 + i as f32 * 0.01).to_bits(),
                    sigma: (0.02 + i as f32 * 0.001).to_bits(),
                })
                .collect(),
        },
        images: sides.iter().enumerate().map(|(i, s)| square_image(*s, i)).collect(),
        radii: sides.iter().map(|s| (*s as u32 - 1) / 2).collect(),
    };
    let mut ctx = GpuContext::new();
    let buffers = upload_kernels(&mut ctx, &bank).unwrap();
    assert_eq!((buffers.count, buffers.max_side), (6, 9));

    let kernels = ctx.buffers[buffers.kernels.id].contents.as_ref().unwrap().clone();
    let gpu_kernels = decode_readback(&kernels, 6 * 81).unwrap();
    let stride = 81;
    let mut cpu_packed = vec![0_u32; 6 * stride];
    for (k, image) in bank.images.iter().enumerate() {
        let k_side = image.dim().0;
        let offset = (9 - k_side) / 2;
        for y in 0..k_side {
            for x in 0..k_side {
                cpu_packed[k * stride + (y + offset) * 9 + (x + offset)] = image.get(y, x);
            }
        }
    }
    assert_eq!(cpu_packed, gpu_kernels);

    let meta = ctx.buffers[buffers.meta.id].contents.as_ref().unwrap().clone();
    let gpu_meta = decode_meta(&meta, 6).unwrap();
    let cpu_meta: Vec<GpuKernelMeta> = bank
        .params
        .kernels
        .iter()
        .map(|e| GpuKernelMeta {
            source_channel: e.c0,
            target_channel: e.c1,
            mu: e.mu,
            sigma: e.sigma,
        })
        .collect();
    assert_eq!(cpu_meta, gpu_meta);
    assert!(decode_meta(&meta, 5).is_none());

    let usage = ctx.buffers[buffers.meta.id].usage;
    assert!(usage.uniform && usage.storage && usage.copy_src && usage.copy_dst);

    let mut encoder = CommandEncoder::new();
    let s1 = readback_kernels(&mut ctx, &mut encoder, &buffers);
    let s2 = readback_meta(&mut ctx, &mut encoder, &buffers);
    assert_eq!((s1.id, s2.id), (2, 3));
    assert_eq!(ctx.buffers[2].size, 6 * 81 * 4);
    assert_eq!(ctx.buffers[3].size, 96);
    assert!(ctx.buffers[3].usage.map_read && ctx.buffers[3].usage.copy_dst);
    assert_eq!(
        encoder.commands[1],
        Command::Copy { src: buffers.meta, src_offset: 0, dst: s2, dst_offset: 0, size: 96 }
    );
}

#[test]
fn kernel_banks_that_are_refused() {
    let empty = KernelBank {
        params: KernelParams { kernels: vec![] },
        images: vec![],
        radii: vec![],
    };
    let mut ctx = GpuContext::new();
    assert_eq!(upload_kernels(&mut ctx, &empty), Err(KernelBankError::Empty));
    let odd = KernelBank {
        params: KernelParams { kernels: vec![entry(0, 0)] },
        images: vec![square_image(7, 0)],
        radii: vec![4],
    };
    assert_eq!(
        upload_kernels(&mut ctx, &odd),
        Err(KernelBankError::SideMismatch { got: 7, expected: 9 })
    );
    assert!(ctx.buffers.is_empty());
}

#[test]
fn padded_kernel_centre_lands_at_origin() {
    let kernel = image(&[&[1.0, 2.0, 3.0], &[4.0, 5.0, 6.0], &[7.0, 8.0, 9.0]]);
    let n: u32 = 8;
    let padded = floats(&build_padded_kernel(&kernel, n));
    let at = |y: usize, x: usize| padded[y * n as usize + x];

    assert_eq!(at(0, 0), 5.0);
    assert_eq!(at(0, 1), 6.0);
    assert_eq!(at(0, (n - 1) as usize), 4.0);
    assert_eq!(at(1, 0), 8.0);
    assert_eq!(at((n - 1) as usize, 0), 2.0);
    assert_eq!(at(1, 1), 9.0);
    assert_eq!(at((n - 1) as usize, (n - 1) as usize), 1.0);

    let mut nonzero_count = 0usize;
    for v in &padded {
        if *v != 0.0 {
            nonzero_count += 1;
        }
    }
    assert_eq!(nonzero_count, 9, "exactly 9 nonzero cells expected");
}

#[test]
fn padded_kernel_layout_implements_true_convolution_not_correlation() {
    let k = image(&[&[1.0, 2.0, 3.0], &[4.0, 5.0, 6.0], &[7.0, 8.0, 9.0]]);
    let n: u32 = 8;
    let padded = floats(&build_padded_kernel(&k, n));
    assert_eq!(padded[0 * n as usize + 1], 6.0, "+1 offset cell");
    assert_eq!(padded[0 * n as usize + (n - 1) as usize], 4.0, "-1 offset cell (wraps)");
}

#[test]
fn kernel_as_large_as_the_grid_wraps_whole() {
    let k = image(&[&[1.0, 2.0, 3.0], &[4.0, 5.0, 6.0], &[7.0, 8.0, 9.0]]);
    let padded = floats(&build_padded_kernel(&k, 3));
    assert_eq!(padded, vec![5.0, 6.0, 4.0, 8.0, 9.0, 7.0, 2.0, 3.0, 1.0]);
}

#[test]
fn kernel_spectra_are_packed_in_order() {
    let spectra = vec![vec![(1, 2), (3, 4), (5, 6), (7, 8)], vec![(9, 10), (11, 12), (13, 14), (15, 16)]];
    let mut ctx = GpuContext::new();
    let b = pack_kernel_ffts(&mut ctx, 2, &spectra);
    assert_eq!((b.n, b.k, b.buffer.id), (2, 2, 0));
    assert_eq!(b.bytes_per_kernel(), 32);
    assert_eq!(b.total_bytes(), 64);
    let words = bytes_to_words(ctx.buffers[0].contents.as_ref().unwrap()).unwrap();
    assert_eq!(words, (1..=16).collect::<Vec<u32>>());
}

#[test]
fn build_for_patches_default_fills_background() {
    let n: u32 = 8;
    let k: u32 = 3;
    let default_p = bits(&[0.1_f32, 0.2, 0.3]);
    let map = build_for_patches(n, k, &default_p, &[]);
    assert_eq!(map.len(), (n * n * k) as usize);
    for y in 0..n as usize {
        for x in 0..n as usize {
            let base = (y * n as usize + x) * k as usize;
            assert_eq!(&map[base..base + 3], &default_p[..]);
        }
    }
}

#[test]
fn build_for_patches_writes_patch_p_vector() {
    let n: u32 = 8;
    let k: u32 = 3;
    let default_p = bits(&vec![0.0_f32; k as usize]);
    let patch_p = bits(&[1.0_f32, 2.0, 3.0]);
    let patches = vec![CreaturePatch { bbox: (2, 2, 5, 5), p_vector: patch_p.clone() }];
    let map = build_for_patches(n, k, &default_p, &patches);
    for y in 0..n as usize {
        for x in 0..n as usize {
            let base = (y * n as usize + x) * k as usize;
            if (2..5).contains(&y) && (2..5).contains(&x) {
                assert_eq!(&map[base..base + 3], &patch_p[..], "cell ({y}, {x}) should hold patch P");
            } else {
                assert_eq!(&map[base..base + 3], &default_p[..], "cell ({y}, {x}) should hold default P");
            }
        }
    }
}

#[test]
fn build_for_patches_four_creatures_distinct_p() {
    let n: u32 = 64;
    let k: u32 = 10;
    let default_p = bits(&vec![0.0_f32; k as usize]);
    let patches: Vec<CreaturePatch> = (0..4u32)
        .map(|c| {
            let (y0, x0) = match c {
                0 => (4, 4),
                1 => (4, 44),
                2 => (44, 4),
                3 => (44, 44),
                _ => unreachable!(),
            };
            let p_vector: Vec<u32> = (0..k)
                .map(|ki| ((c as f32 + 1.0) * (ki as f32 + 1.0) * 0.01).to_bits())
                .collect();
            CreaturePatch { bbox: (y0, x0, y0 + 20, x0 + 20), p_vector }
        })
        .collect();
    let map = build_for_patches(n, k, &default_p, &patches);
    let creature0_first_p: Vec<u32> =
        (0..k).map(|ki| (1.0 * (ki as f32 + 1.0) * 0.01).to_bits()).collect();
    let base = (4 * n as usize + 4) * k as usize;
    assert_eq!(&map[base..base + k as usize], &creature0_first_p[..]);
    let creature3_first_p: Vec<u32> =
        (0..k).map(|ki| (4.0 * (ki as f32 + 1.0) * 0.01).to_bits()).collect();
    let base = (44 * n as usize + 44) * k as usize;
    assert_eq!(&map[base..base + k as usize], &creature3_first_p[..]);
    let base = (32 * n as usize + 32) * k as usize;
    assert_eq!(&map[base..base + k as usize], &default_p[..]);
}

#[test]
fn build_for_patches_overlap_last_wins() {
    let n: u32 = 8;
    let k: u32 = 2;
    let default_p = bits(&vec![0.0_f32; k as usize]);
    let patches = vec![
        CreaturePatch { bbox: (0, 0, 4, 4), p_vector: bits(&[1.0, 1.0]) },
        CreaturePatch { bbox: (2, 2, 6, 6), p_vector: bits(&[2.0, 2.0]) },
    ];
    let map = build_for_patches(n, k, &default_p, &patches);
    let base = (3 * n as usize + 3) * k as usize;
    assert_eq!(&map[base..base + 2], &bits(&[2.0_f32, 2.0])[..]);
    let base = (1 * n as usize + 1) * k as usize;
    assert_eq!(&map[base..base + 2], &bits(&[1.0_f32, 1.0])[..]);
}

#[test]
fn patches_are_clamped_to_the_grid() {
    let patches = vec![
        CreaturePatch { bbox: (2, 2, 900, u32::MAX), p_vector: vec![7] },
        CreaturePatch { bbox: (50, 0, 60, 4), p_vector: vec![9] },
        CreaturePatch { bbox: (3, 3, 1, 1), p_vector: vec![11] },
    ];
    let map = build_for_patches(4, 1, &[1], &patches);
    let expected = vec![1, 1, 1, 1, 1, 1, 1, 1, 1, 1, 7, 7, 1, 1, 7, 7];
    assert_eq!(map, expected);
    let mut ctx = GpuContext::new();
    let b = upload(&mut ctx, &map);
    assert_eq!(b.id, 0);
    assert_eq!(bytes_to_words(ctx.buffers[0].contents.as_ref().unwrap()), Some(map));
    assert!(ctx.buffers[0].usage.storage && ctx.buffers[0].usage.copy_dst);
}

#[test]
fn weight_maps_are_cell_major() {
    let mut p = ActivationField::zeros(2, 3, 2);
    for y in 0..2 {
        for x in 0..3 {
            for k in 0..2 {
                p.set(y, x, k, (y * 100 + x * 10 + k) as u32);
            }
        }
    }
    let flat = flatten_p_map_cell_major(&p);
    assert_eq!(flat, vec![0, 1, 10, 11, 20, 21, 100, 101, 110, 111, 120, 121]);
    let mut ctx = GpuContext::new();
    upload_localized_weights(&mut ctx, &p);
    assert_eq!(ctx.buffers[0].size, 48);
}

#[test]
fn constant_weights_are_zero_padded() {
    let w = GpuConstantWeights::from_slice(&bits(&[0.5, 0.25]));
    assert_eq!(w.h.len(), MAX_KERNELS);
    assert_eq!(f32::from_bits(w.h[0]), 0.5);
    assert_eq!(f32::from_bits(w.h[1]), 0.25);
    assert!(w.h[2..].iter().all(|v| *v == 0));
    let full: Vec<u32> = (0..45).collect();
    assert_eq!(GpuConstantWeights::from_slice(&full).h.to_vec(), full);
    let mut ctx = GpuContext::new();
    upload_constant_weights(&mut ctx, &w);
    assert_eq!(ctx.buffers[0].size, 180);
}

#[test]
fn globals_layout() {
    let g = GpuGlobals::new(64, 48, 3, 10, 27, BorderMode::Wall)
        .with_paper_strict(true)
        .with_beta_a(2.0_f32.to_bits())
        .with_n(3.0_f32.to_bits())
        .with_dd(5)
        .with_sigma(0.65_f32.to_bits())
        .with_dt(0.2_f32.to_bits());
    assert_eq!(g.half_side, 13);
    let words = bytes_to_words(&g.to_bytes()).unwrap();
    assert_eq!(words[..8], [64, 48, 3, 10, 27, 13, 1, 1]);
    assert_eq!(floats(&words[8..10]), vec![2.0, 3.0]);
    assert_eq!(words[10], 5);
    assert_eq!(floats(&words[11..13]), vec![0.65, 0.2]);
    assert_eq!(words[13..], [0, 0, 0]);
    assert_eq!(GpuGlobals::new(1, 1, 1, 1, 1, BorderMode::Torus).border, 0);
}

#[test]
fn border_codes() {
    assert_eq!(BorderCode::from(BorderMode::Torus), BorderCode::Torus);
    assert_eq!(BorderCode::from(BorderMode::Wall), BorderCode::Wall);
    assert_eq!(BorderCode::Torus.code(), 0);
    assert_eq!(BorderCode::Wall.code(), 1);
}

#[test]
fn a_symmetric_kernel_is_even_on_the_grid() {
    let k = image(&[&[1.0, 2.0, 1.0], &[3.0, 9.0, 3.0], &[1.0, 2.0, 1.0]]);
    let n = 8_usize;
    let padded = build_padded_kernel(&k, n as u32);
    for y in 0..n {
        for x in 0..n {
            let mirrored = (n - y) % n * n + (n - x) % n;
            assert_eq!(padded[y * n + x], padded[mirrored]);
        }
    }
    assert_eq!(f32::from_bits(padded[0]), 9.0);
    assert_eq!(padded.iter().filter(|w| **w != 0).count(), 9);
}

#[test]
fn released_buffers_are_given_out_again() {
    let mut ctx = GpuContext::new();
    let field = ActivationField::zeros(2, 2, 1);
    let first = upload_activation(&mut ctx, &field);
    let mark = ctx.buffers.len();
    let second = upload_activation(&mut ctx, &field);
    ctx.write_buffer(first, vec![1, 2, 3, 4]);
    ctx.release(mark);
    assert_eq!(ctx.buffers.len(), 1);
    assert_eq!(upload_activation(&mut ctx, &field), second);
    ctx.release(17);
    assert_eq!(ctx.buffers.len(), 2);
    let writes = ctx.take_writes();
    assert_eq!(writes.len(), 1);
    assert_eq!((writes[0].buffer, writes[0].bytes.len()), (first, 4));
    assert!(ctx.take_writes().is_empty());
}
