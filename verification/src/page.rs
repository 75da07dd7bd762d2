//! The browser frontend, embedded so the server binary is self-sufficient: one
//! self-contained page (no external scripts, styles or fonts) that opens a
//! WebSocket on `/ws`, draws the analog gauge on a canvas and the SNR
//! spectrum below it.
//!
//! Each message is a JSON object with `hz`, `note`, `cents`, `needle`,
//! `locked`, `ok`, `range`, and, when a new analysis arrived, `spd`.

use vstd::prelude::*;

verus! {

/// The whole page served at `/`.
pub const INDEX_HTML: &'static str = r##"<!DOCTYPE html>
<html lang="en">
<head>
<meta charset="utf-8">
<meta name="viewport" content="width=device-width, initial-scale=1">
<title>lingot-tuner</title>
<style>
  body { margin: 0; background: #111; color: #ddd; font-family: sans-serif; text-align: center; }
  #note { font-size: 64px; font-weight: bold; margin-top: 12px; }
  #hz { font-size: 18px; color: #999; }
  #status { font-size: 14px; color: #999; min-height: 18px; }
  canvas { display: block; margin: 8px auto; width: 96vw; max-width: 520px; }
</style>
</head>
<body>
<div id="note">--</div>
<div id="hz">listening&hellip;</div>
<canvas id="gauge"></canvas>
<canvas id="spectrum"></canvas>
<div id="status">connecting&hellip;</div>
<script>
"use strict";
const OVERTURE = 65 * Math.PI / 180;
const IN_TUNE_CENTS = 5;
const gauge = document.getElementById("gauge");
const spectrum = document.getElementById("spectrum");
let last = null;
let spd = [];

function resize() {
  for (const c of [gauge, spectrum]) {
    const w = c.clientWidth * window.devicePixelRatio;
    c.width = w;
    c.height = c === gauge ? w / 1.6 : w / 4;
  }
  draw();
}

function colour(cents, locked) {
  if (!locked) { return "#888"; }
  const a = Math.abs(cents);
  if (a < IN_TUNE_CENTS) { return "#50dc78"; }
  if (a < 4 * IN_TUNE_CENTS) { return "#e6be46"; }
  return "#dc5a50";
}

function divisions(range) {
  let minor = range / 20;
  const base = Math.pow(10, Math.floor(Math.log10(minor)));
  const norm = minor / base;
  const step = norm >= 6 ? 10 : norm >= 2.5 ? 5 : norm >= 1.2 ? 2 : 1;
  minor = step * base;
  return [minor, 5 * minor];
}

function drawGauge(s) {
  const g = gauge.getContext("2d");
  const w = gauge.width, h = gauge.height;
  g.fillStyle = "#fff";
  g.fillRect(0, 0, w, h);
  const cx = w / 2, cy = h * 0.94;
  const polar = (r, a) => [cx + r * Math.sin(a), cy - r * Math.cos(a)];
  const arc = (r, a0, a1, width, style) => {
    g.beginPath();
    g.arc(cx, cy, r, a0 - Math.PI / 2, a1 - Math.PI / 2);
    g.lineWidth = width;
    g.strokeStyle = style;
    g.stroke();
  };
  const line = (p, q, width, style) => {
    g.beginPath();
    g.moveTo(p[0], p[1]);
    g.lineTo(q[0], q[1]);
    g.lineWidth = width;
    g.strokeStyle = style;
    g.stroke();
  };
  const range = s && s.range > 0 ? s.range : 100;
  arc(h * 0.48, -OVERTURE, OVERTURE, h * 0.07, "#ddaaaa");
  arc(h * 0.48, -0.12 * OVERTURE, 0.12 * OVERTURE, h * 0.07, "#99dd99");
  const barR = h * 0.75;
  arc(barR, -1.05 * OVERTURE, 1.05 * OVERTURE, h * 0.022, "#333355");
  const [minor, major] = divisions(range);
  const nMinor = Math.floor(0.5 * range / minor);
  for (let i = -nMinor; i <= nMinor; i++) {
    const a = 2 * OVERTURE * i * minor / range;
    line(polar(barR - h * 0.03, a), polar(barR, a), h * 0.008, "#141414");
  }
  const nMajor = Math.floor(0.5 * range / major);
  g.fillStyle = "#141414";
  g.font = Math.round(h * 0.085) + "px sans-serif";
  g.textAlign = "center";
  g.textBaseline = "middle";
  for (let i = -nMajor; i <= nMajor; i++) {
    const a = 2 * OVERTURE * i * major / range;
    line(polar(barR - h * 0.045, a), polar(barR, a), h * 0.022, "#141414");
    const cents = Math.round(i * major);
    const p = polar(barR - h * 0.145, a);
    g.fillText(cents > 0 ? "+" + cents : String(cents), p[0], p[1]);
  }
  g.fillText("cent", cx, cy - (barR - h * 0.045) * 0.8);
  const needle = s ? Math.max(-range / 2, Math.min(range / 2, s.needle)) : -0.45 * range;
  const a = 2 * (needle / range) * OVERTURE;
  line(polar(-h * 0.08, a), polar(h * 0.85, a), h * 0.013, "#aa3333");
  g.beginPath();
  g.arc(cx, cy, h * 0.045, 0, 2 * Math.PI);
  g.fillStyle = "#aa3333";
  g.fill();
}

function drawSpectrum() {
  const g = spectrum.getContext("2d");
  const w = spectrum.width, h = spectrum.height;
  g.fillStyle = "#121212";
  g.fillRect(0, 0, w, h);
  if (spd.length === 0) { return; }
  const barW = w / spd.length;
  g.fillStyle = "#50a0dc";
  for (let i = 0; i < spd.length; i++) {
    const norm = Math.max(0, Math.min(1, spd[i] / 40));
    g.fillRect(i * barW, h - norm * h, Math.max(barW, 1), norm * h);
  }
}

function draw() {
  drawGauge(last);
  drawSpectrum();
  const note = document.getElementById("note");
  const hz = document.getElementById("hz");
  if (last && last.locked) {
    note.textContent = last.note;
    note.style.color = colour(last.cents, true);
    hz.textContent = last.hz.toFixed(2) + " Hz   " + (last.cents >= 0 ? "+" : "") + last.cents.toFixed(1) + " cents";
  } else {
    note.textContent = "--";
    note.style.color = colour(0, false);
    hz.textContent = "listening\u2026";
  }
}

function connect() {
  const ws = new WebSocket((location.protocol === "https:" ? "wss://" : "ws://") + location.host + "/ws");
  const status = document.getElementById("status");
  ws.onopen = () => { status.textContent = ""; };
  ws.onmessage = (event) => {
    last = JSON.parse(event.data);
    if (Array.isArray(last.spd)) { spd = last.spd; }
    status.textContent = last.ok ? "" : "audio device error";
    draw();
  };
  ws.onclose = () => {
    status.textContent = "disconnected \u2014 retrying\u2026";
    setTimeout(connect, 1000);
  };
}

window.addEventListener("resize", resize);
resize();
connect();
</script>
</body>
</html>
"##;

} // verus!
